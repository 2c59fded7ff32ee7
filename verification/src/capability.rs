//! Which generative-AI measurements an emitter's telemetry carries, and how far they can be trusted.
use crate::group;
use crate::group::Key;
use crate::latency;
use crate::order;
use crate::order::LabelsRank;
use crate::sums;
use crate::text;
use vstd::prelude::*;

verus! {

/// What a span says of one measurement.
#[derive(Clone, Copy, Debug, PartialEq, Eq, Structural)]
pub enum MetricObservation {
    Valid,
    Invalid,
    Absent,
}

/// The software that emitted a span.
#[derive(Clone, Copy, Debug, PartialEq, Eq, Structural)]
pub enum GenAiEmitter {
    ClaudeCode,
    Codex,
    OpenCode,
    StandardOtel,
    Unknown,
    Ambiguous,
}

/// The name of an emitter.
pub open spec fn name_of_emitter(emitter: GenAiEmitter) -> Seq<char> {
    match emitter {
        GenAiEmitter::ClaudeCode => "claude_code"@,
        GenAiEmitter::Codex => "codex"@,
        GenAiEmitter::OpenCode => "opencode"@,
        GenAiEmitter::StandardOtel => "standard_otel"@,
        GenAiEmitter::Unknown => "unknown"@,
        GenAiEmitter::Ambiguous => "ambiguous"@,
    }
}

/// The name of an emitter.
pub fn emitter_name(emitter: GenAiEmitter) -> (name: &'static str)
    ensures
        name@ == name_of_emitter(emitter),
{
    match emitter {
        GenAiEmitter::ClaudeCode => "claude_code",
        GenAiEmitter::Codex => "codex",
        GenAiEmitter::OpenCode => "opencode",
        GenAiEmitter::StandardOtel => "standard_otel",
        GenAiEmitter::Unknown => "unknown",
        GenAiEmitter::Ambiguous => "ambiguous",
    }
}

/// The value of the attribute `key`, where there is one.
pub open spec fn attribute(attributes: Seq<(String, String)>, key: Seq<char>) -> Option<Seq<char>>
    decreases attributes.len(),
{
    if attributes.len() == 0 {
        None
    } else if attributes[0].0@ == key {
        Some(attributes[0].1@)
    } else {
        attribute(attributes.drop_first(), key)
    }
}

/// The value of the first key that names an attribute.
pub open spec fn first_attribute(attributes: Seq<(String, String)>, keys: Seq<String>) -> Option<Seq<char>>
    decreases keys.len(),
{
    if keys.len() == 0 {
        None
    } else {
        match attribute(attributes, keys[0]@) {
            Some(v) => Some(v),
            None => first_attribute(attributes, keys.drop_first()),
        }
    }
}

fn find_attribute(attributes: &Vec<(String, String)>, key: &String) -> (value: Option<String>)
    ensures
        text::optional(value) == attribute(attributes@, key@),
{
    let mut i: usize = 0;
    assert(attributes@.skip(0) =~= attributes@);
    while i < attributes.len()
        invariant
            i <= attributes@.len(),
            attribute(attributes@, key@) == attribute(attributes@.skip(i as int), key@),
        decreases attributes@.len() - i,
    {
        assert(attributes@.skip(i as int).drop_first() =~= attributes@.skip(i + 1));
        if text::same_text(attributes[i].0.as_str(), key.as_str()) {
            return Some(attributes[i].1.clone());
        }
        i = i + 1;
    }
    None
}

/// The value of the first of some attribute keys that a span carries.
pub fn first_semconv_attribute(
    attributes: &Vec<(String, String)>,
    keys: &Vec<String>,
) -> (value: Option<String>)
    ensures
        text::optional(value) == first_attribute(attributes@, keys@),
{
    let mut i: usize = 0;
    assert(keys@.skip(0) =~= keys@);
    while i < keys.len()
        invariant
            i <= keys@.len(),
            first_attribute(attributes@, keys@) == first_attribute(attributes@, keys@.skip(i as int)),
        decreases keys@.len() - i,
    {
        assert(keys@.skip(i as int).drop_first() =~= keys@.skip(i + 1));
        let found = find_attribute(attributes, &keys[i]);
        if found.is_some() {
            return found;
        }
        i = i + 1;
    }
    None
}

/// One step of the 64-bit FNV-1a hash.
pub open spec fn fnv_step(hash: u64, byte: u8) -> u64 {
    (((hash ^ (byte as u64)) as nat * 0x100000001b3nat) % 0x1_0000_0000_0000_0000nat) as u64
}

/// The 64-bit FNV-1a hash, from a given state.
pub open spec fn fnv(hash: u64, bytes: Seq<u8>) -> u64
    decreases bytes.len(),
{
    if bytes.len() == 0 {
        hash
    } else {
        fnv_step(fnv(hash, bytes.drop_last()), bytes.last())
    }
}

/// The bytes of a text and the zero byte that ends it.
pub open spec fn terminated(s: Seq<char>) -> Seq<u8> {
    vstd::utf8::encode_utf8(s).push(0u8)
}

/// A missing text is empty.
pub open spec fn or_empty(s: Option<Seq<char>>) -> Seq<char> {
    match s {
        Some(t) => t,
        None => Seq::empty(),
    }
}

/// The character of a hexadecimal digit.
pub open spec fn hex_digit(d: nat) -> char {
    if d < 10 {
        (48 + d) as char
    } else {
        (87 + d) as char
    }
}

/// The last `places` hexadecimal digits of a number.
pub open spec fn hex(n: nat, places: nat) -> Seq<char>
    decreases places,
{
    if places == 0 {
        Seq::empty()
    } else {
        hex(n / 16, (places - 1) as nat).push(hex_digit(n % 16))
    }
}

/// The fingerprint of an emitter: the hash of the adapter rule, the service name, the scope name and
/// the scope version, each ended by a zero byte.
pub open spec fn fingerprint(
    adapter_rule: Seq<char>,
    service_name: Option<Seq<char>>,
    scope_name: Option<Seq<char>>,
    scope_version: Option<Seq<char>>,
) -> Seq<char> {
    let a = fnv(0xcbf29ce484222325, terminated(adapter_rule));
    let b = fnv(a, terminated(or_empty(service_name)));
    let c = fnv(b, terminated(or_empty(scope_name)));
    let d = fnv(c, terminated(or_empty(scope_version)));
    "genai-v1-"@ + hex(d as nat, 16)
}

/// Hashes one text and its end.
fn hash_part(hash: u64, part: &str) -> (h: u64)
    ensures
        h == fnv(hash, terminated(part@)),
{
    let bytes = part.as_bytes();
    let mut h: u64 = hash;
    let mut i: usize = 0;
    while i < bytes.len()
        invariant
            i <= bytes@.len(),
            h == fnv(hash, bytes@.take(i as int)),
        decreases bytes@.len() - i,
    {
        assert(bytes@.take(i + 1).drop_last() =~= bytes@.take(i as int));
        h = (h ^ (bytes[i] as u64)).wrapping_mul(0x100000001b3);
        i = i + 1;
    }
    assert(bytes@.take(i as int) =~= bytes@);
    assert(terminated(part@).drop_last() =~= bytes@);
    (h ^ (0u8 as u64)).wrapping_mul(0x100000001b3)
}

fn hex_text(d: u64) -> (s: &'static str)
    requires
        d < 16,
    ensures
        s@ == seq![hex_digit(d as nat)],
{
    proof {
        reveal_strlit("0");
        reveal_strlit("1");
        reveal_strlit("2");
        reveal_strlit("3");
        reveal_strlit("4");
        reveal_strlit("5");
        reveal_strlit("6");
        reveal_strlit("7");
        reveal_strlit("8");
        reveal_strlit("9");
        reveal_strlit("a");
        reveal_strlit("b");
        reveal_strlit("c");
        reveal_strlit("d");
        reveal_strlit("e");
        reveal_strlit("f");
    }
    match d {
        0 => "0",
        1 => "1",
        2 => "2",
        3 => "3",
        4 => "4",
        5 => "5",
        6 => "6",
        7 => "7",
        8 => "8",
        9 => "9",
        10 => "a",
        11 => "b",
        12 => "c",
        13 => "d",
        14 => "e",
        _ => "f",
    }
}

/// Renders the last `places` hexadecimal digits of a number.
fn render_hex(n: u64, places: usize) -> (s: String)
    ensures
        s@ == hex(n as nat, places as nat),
    decreases places,
{
    if places == 0 {
        return String::new();
    }
    let mut s = render_hex(n / 16, places - 1);
    s.append(hex_text(n % 16));
    s
}

/// The text, or nothing where there is none.
fn text_or_empty(s: &Option<String>) -> (r: String)
    ensures
        r@ == or_empty(text::optional(*s)),
{
    match s {
        Some(t) => t.clone(),
        None => String::new(),
    }
}

/// The fingerprint of an emitter.
pub fn capability_fingerprint(
    adapter_rule: &str,
    service_name: &Option<String>,
    scope_name: &Option<String>,
    scope_version: &Option<String>,
) -> (s: String)
    ensures
        s@ == fingerprint(
            adapter_rule@,
            text::optional(*service_name),
            text::optional(*scope_name),
            text::optional(*scope_version),
        ),
{
    let a: u64 = hash_part(0xcbf29ce484222325, adapter_rule);
    let b: u64 = hash_part(a, text_or_empty(service_name).as_str());
    let c: u64 = hash_part(b, text_or_empty(scope_name).as_str());
    let d: u64 = hash_part(c, text_or_empty(scope_version).as_str());
    let mut s = "genai-v1-".to_owned();
    s.append(render_hex(d, 16).as_str());
    s
}

/// A missing part and an empty one have one fingerprint.
pub proof fn missing_is_empty(
    adapter_rule: Seq<char>,
    scope_name: Option<Seq<char>>,
    scope_version: Option<Seq<char>>,
)
    ensures
        fingerprint(adapter_rule, None, scope_name, scope_version) == fingerprint(
            adapter_rule,
            Some(Seq::empty()),
            scope_name,
            scope_version,
        ),
{
}

/// A fingerprint ends in sixteen hexadecimal digits.
pub proof fn hex_has_its_places(n: nat, places: nat)
    ensures
        hex(n, places).len() == places,
    decreases places,
{
    if places > 0 {
        hex_has_its_places(n / 16, (places - 1) as nat);
    }
}

/// What one span says of one measurement, and which attribute says it.
pub struct MetricReading {
    pub observation: MetricObservation,
    pub source_attribute: Option<String>,
}

/// A reading, and whether it is a time to first token that tells nothing of streaming.
pub struct MetricSample {
    pub observation: MetricObservation,
    pub source_attribute: Option<String>,
    pub degenerate: bool,
}

/// What a sample says.
pub ghost struct MetricSampleView {
    pub observation: MetricObservation,
    pub source_attribute: Option<Seq<char>>,
    pub degenerate: bool,
}

impl View for MetricSample {
    type V = MetricSampleView;

    open spec fn view(&self) -> MetricSampleView {
        MetricSampleView {
            observation: self.observation,
            source_attribute: text::optional(self.source_attribute),
            degenerate: self.degenerate,
        }
    }
}

/// The number of samples with an observation.
pub open spec fn observed_as(samples: Seq<MetricSampleView>, o: MetricObservation) -> int
    decreases samples.len(),
{
    if samples.len() == 0 {
        0
    } else {
        observed_as(samples.drop_last(), o) + if samples.last().observation == o {
            1int
        } else {
            0int
        }
    }
}

/// The number of valid samples that tell nothing of streaming.
pub open spec fn degenerate(samples: Seq<MetricSampleView>) -> int
    decreases samples.len(),
{
    if samples.len() == 0 {
        0
    } else {
        degenerate(samples.drop_last()) + if samples.last().observation == MetricObservation::Valid
            && samples.last().degenerate {
            1int
        } else {
            0int
        }
    }
}

/// The attributes that the samples were read from.
pub open spec fn sources(samples: Seq<MetricSampleView>) -> Seq<Seq<char>>
    decreases samples.len(),
{
    if samples.len() == 0 {
        Seq::empty()
    } else {
        match samples.last().source_attribute {
            Some(s) => sources(samples.drop_last()).push(s),
            None => sources(samples.drop_last()),
        }
    }
}

/// How often each distinct text occurs, in the order in which the texts first occur.
pub open spec fn occurrences(texts: Seq<Seq<char>>) -> Seq<(Seq<char>, int)> {
    Seq::new(
        group::first_seen(texts).len(),
        |g: int|
            (
                group::first_seen(texts)[g],
                group::gather(texts, texts, group::first_seen(texts)[g]).len() as int,
            ),
    )
}

/// How far one measurement is covered.
pub struct GenAiMetricCapability {
    pub eligible_count: usize,
    pub observed_count: usize,
    pub valid_count: usize,
    pub invalid_count: usize,
    /// `absent`, `available` or `sparse`.
    pub availability: String,
    /// `degenerate`, `invalid`, `reliable` or `not_assessed`.
    pub quality: String,
    /// `native` or `unavailable`.
    pub derivation: String,
    /// How often each attribute was the source.
    pub source_attributes: Vec<(String, usize)>,
}

/// How often each source occurs, as numbers.
pub open spec fn source_counts(sources: Seq<(String, usize)>) -> Seq<(Seq<char>, int)> {
    Seq::new(sources.len(), |i: int| (sources[i].0@, sources[i].1 as int))
}

/// Whether none, all or some of the eligible spans carry a valid measurement.
pub open spec fn availability(valid: int, eligible: int) -> Seq<char> {
    if valid == 0 {
        "absent"@
    } else if valid == eligible {
        "available"@
    } else {
        "sparse"@
    }
}

/// How far the measurement can be trusted. Only times to first token can be degenerate.
pub open spec fn quality(ttft: bool, valid: int, invalid: int, late: int) -> Seq<char> {
    if ttft && latency::mostly_late(valid, late) {
        "degenerate"@
    } else if invalid > 0 {
        "invalid"@
    } else if valid > 0 {
        "reliable"@
    } else {
        "not_assessed"@
    }
}

/// The capability is that of the samples.
pub open spec fn assesses(c: GenAiMetricCapability, samples: Seq<MetricSampleView>, ttft: bool) -> bool {
    let valid = observed_as(samples, MetricObservation::Valid);
    let invalid = observed_as(samples, MetricObservation::Invalid);
    &&& c.eligible_count == samples.len()
    &&& c.observed_count == sources(samples).len()
    &&& c.valid_count == valid
    &&& c.invalid_count == invalid
    &&& c.availability@ == availability(valid, samples.len() as int)
    &&& c.quality@ == quality(ttft, valid, invalid, degenerate(samples))
    &&& c.derivation@ == if sources(samples).len() > 0 {
        "native"@
    } else {
        "unavailable"@
    }
    &&& source_counts(c.source_attributes@) == occurrences(sources(samples))
}

/// What some samples say.
pub open spec fn sample_views(samples: Seq<MetricSample>) -> Seq<MetricSampleView> {
    Seq::new(samples.len(), |i: int| samples[i]@)
}

/// As many of a list stand beside an id as there are positions beside it.
proof fn lemma_positions_count<I>(ids: Seq<I>, id: I)
    requires
        ids.len() <= usize::MAX,
    ensures
        group::gather(ids, group::all_positions(ids.len()), id).len() == group::gather(ids, ids, id).len(),
{
    group::lemma_gather_positions(ids, ids, id);
}

/// Counts how often each distinct text occurs.
fn count_occurrences(texts: &Vec<String>) -> (out: Vec<(String, usize)>)
    ensures
        source_counts(out@) == occurrences(group::ids(texts@)),
{
    let ghost ids = group::ids(texts@);
    let groups = group::group_positions(texts);
    assert(texts.len() == texts@.len());
    let mut out: Vec<(String, usize)> = Vec::new();
    let mut g: usize = 0;
    while g < groups.len()
        invariant
            g <= groups@.len(),
            ids == group::ids(texts@),
            texts@.len() <= usize::MAX,
            group::is_grouping(groups@, ids, group::all_positions(texts@.len())),
            out@.len() == g,
            forall|h: int| 0 <= h < g ==> ((#[trigger] out@[h]).0@, out@[h].1 as int) == occurrences(ids)[h],
        decreases groups@.len() - g,
    {
        proof {
            assert(groups@[g as int].key.id() == group::first_seen(ids)[g as int]);
            lemma_positions_count(ids, groups@[g as int].key.id());
        }
        out.push((groups[g].key.clone(), groups[g].members.len()));
        g = g + 1;
    }
    assert(source_counts(out@) =~= occurrences(ids));
    out
}

/// Assesses one measurement over some spans.
pub fn assess(samples: &Vec<MetricSample>, ttft: bool) -> (c: GenAiMetricCapability)
    ensures
        assesses(c, sample_views(samples@), ttft),
{
    let ghost v = sample_views(samples@);
    let mut valid: usize = 0;
    let mut invalid: usize = 0;
    let mut late: usize = 0;
    let mut names: Vec<String> = Vec::new();
    let mut i: usize = 0;
    assert(group::ids(names@) =~= sources(v.take(0)));
    while i < samples.len()
        invariant
            i <= samples@.len(),
            v == sample_views(samples@),
            valid == observed_as(v.take(i as int), MetricObservation::Valid),
            invalid == observed_as(v.take(i as int), MetricObservation::Invalid),
            late == degenerate(v.take(i as int)),
            valid <= i,
            invalid <= i,
            late <= i,
            group::ids(names@) == sources(v.take(i as int)),
        decreases samples@.len() - i,
    {
        let s = &samples[i];
        assert(v.take(i + 1).drop_last() =~= v.take(i as int));
        if let Some(name) = &s.source_attribute {
            let ghost had = names@;
            names.push(name.clone());
            assert(group::ids(names@) =~= group::ids(had).push(name@));
        }
        match s.observation {
            MetricObservation::Valid => {
                valid = valid + 1;
                if s.degenerate {
                    late = late + 1;
                }
            },
            MetricObservation::Invalid => {
                invalid = invalid + 1;
            },
            MetricObservation::Absent => {},
        }
        i = i + 1;
    }
    assert(v.take(i as int) =~= v);
    let availability = if valid == 0 {
        "absent"
    } else if valid == samples.len() {
        "available"
    } else {
        "sparse"
    };
    let quality = if ttft && valid >= 10 && (late as u128) * 100 >= (valid as u128) * 90 {
        "degenerate"
    } else if invalid > 0 {
        "invalid"
    } else if valid > 0 {
        "reliable"
    } else {
        "not_assessed"
    };
    assert(group::ids(names@).len() == names@.len());
    let derivation = if names.len() > 0 {
        "native"
    } else {
        "unavailable"
    };
    GenAiMetricCapability {
        eligible_count: samples.len(),
        observed_count: names.len(),
        valid_count: valid,
        invalid_count: invalid,
        availability: availability.to_owned(),
        quality: quality.to_owned(),
        derivation: derivation.to_owned(),
        source_attributes: count_occurrences(&names),
    }
}

/// A measurement whose coverage is reported.
#[derive(Clone, Copy, Debug, PartialEq, Eq, Structural)]
pub enum CapabilityMetric {
    InputTokens,
    OutputTokens,
    CacheCreationTokens,
    CacheReadTokens,
    Ttft,
}

/// One span as its emitter's adapter reads it.
pub struct CapabilitySpan {
    /// The span times a request.
    pub is_request: bool,
    pub attributes: Vec<(String, String)>,
    pub emitter: GenAiEmitter,
    pub adapter_rule: String,
    pub service_name: Option<String>,
    pub scope_name: Option<String>,
    pub scope_version: Option<String>,
    pub start_time: i64,
    pub end_time: i64,
    pub input_tokens: MetricReading,
    pub output_tokens: MetricReading,
    pub cache_creation_tokens: MetricReading,
    pub cache_read_tokens: MetricReading,
    pub ttft: MetricReading,
    /// The time to first token in nanoseconds.
    pub ttft_ns: Option<i64>,
    /// How often the span was delivered beyond the first time.
    pub duplicate_deliveries: usize,
}

/// The first token came so late that the time tells nothing of streaming.
pub open spec fn span_is_late(span: CapabilitySpan) -> bool {
    match span.ttft_ns {
        Some(t) => latency::is_late(span.end_time - span.start_time, t as int),
        None => false,
    }
}

/// What a span says of a measurement.
pub open spec fn reading(span: CapabilitySpan, metric: CapabilityMetric) -> MetricSampleView {
    let (r, late) = match metric {
        CapabilityMetric::InputTokens => (span.input_tokens, false),
        CapabilityMetric::OutputTokens => (span.output_tokens, false),
        CapabilityMetric::CacheCreationTokens => (span.cache_creation_tokens, false),
        CapabilityMetric::CacheReadTokens => (span.cache_read_tokens, false),
        CapabilityMetric::Ttft => (span.ttft, span_is_late(span)),
    };
    MetricSampleView {
        observation: r.observation,
        source_attribute: text::optional(r.source_attribute),
        degenerate: late,
    }
}

/// What some spans say of a measurement.
pub open spec fn readings(spans: Seq<CapabilitySpan>, metric: CapabilityMetric) -> Seq<MetricSampleView> {
    Seq::new(spans.len(), |i: int| reading(spans[i], metric))
}

/// The attribute keys that name the requested model and the provider, the preferred first.
pub struct CapabilityKeys {
    pub request_model: Vec<String>,
    pub system: Vec<String>,
}

/// The model that a span requests.
pub open spec fn request_model(span: CapabilitySpan, keys: CapabilityKeys) -> Option<Seq<char>> {
    first_attribute(span.attributes@, keys.request_model@)
}

/// The span times a request, for the model that is asked for, if one is.
pub open spec fn counts(span: CapabilitySpan, keys: CapabilityKeys, model: Option<Seq<char>>) -> bool {
    span.is_request && (model is None || request_model(span, keys) == model)
}

/// The spans that count.
pub open spec fn counted(
    spans: Seq<CapabilitySpan>,
    keys: CapabilityKeys,
    model: Option<Seq<char>>,
) -> Seq<CapabilitySpan>
    decreases spans.len(),
{
    if spans.len() == 0 {
        Seq::empty()
    } else {
        let earlier = counted(spans.drop_last(), keys, model);
        if counts(spans.last(), keys, model) {
            earlier.push(spans.last())
        } else {
            earlier
        }
    }
}

/// The key that spans are grouped by: provider, model, fingerprint, emitter and adapter rule.
pub open spec fn span_key(span: CapabilitySpan, keys: CapabilityKeys) -> Seq<Option<Seq<char>>> {
    seq![
        first_attribute(span.attributes@, keys.system@),
        request_model(span, keys),
        Some(
            fingerprint(
                span.adapter_rule@,
                text::optional(span.service_name),
                text::optional(span.scope_name),
                text::optional(span.scope_version),
            ),
        ),
        Some(name_of_emitter(span.emitter)),
        Some(span.adapter_rule@),
    ]
}

/// The key of each span.
pub open spec fn span_keys(spans: Seq<CapabilitySpan>, keys: CapabilityKeys) -> Seq<Seq<Option<Seq<char>>>> {
    Seq::new(spans.len(), |i: int| span_key(spans[i], keys))
}

/// The deliveries beyond the first, over all spans.
pub open spec fn duplicates() -> spec_fn(CapabilitySpan) -> int {
    |s: CapabilitySpan| s.duplicate_deliveries as int
}

/// How spans were correlated with each other, and with what success.
pub struct GenAiCorrelationProvenance {
    pub rule: String,
    pub matched_count: usize,
    pub unmatched_count: usize,
    pub rejected_count: usize,
    pub ambiguous_count: usize,
}

/// Each span was taken by itself.
pub open spec fn is_uncorrelated(c: GenAiCorrelationProvenance) -> bool {
    &&& c.rule@ == "none"@
    &&& c.matched_count == 0
    &&& c.unmatched_count == 0
    &&& c.rejected_count == 0
    &&& c.ambiguous_count == 0
}

/// How far one emitter's spans cover the measurements.
pub struct GenAiCapabilityReport {
    pub provider: Option<String>,
    pub model: Option<String>,
    pub emitter_fingerprint: String,
    pub emitter: String,
    pub adapter_rule: String,
    pub request_count: usize,
    pub input_tokens: GenAiMetricCapability,
    pub output_tokens: GenAiMetricCapability,
    pub cache_creation_tokens: GenAiMetricCapability,
    pub cache_read_tokens: GenAiMetricCapability,
    pub ttft: GenAiMetricCapability,
    pub correlation: GenAiCorrelationProvenance,
}

/// How far the spans of a sample cover the measurements.
pub struct GenAiCapabilityResponse {
    pub reports: Vec<GenAiCapabilityReport>,
    pub canonical_span_count: usize,
    pub duplicate_span_count: usize,
    /// Older physical spans were not examined.
    pub truncated: bool,
}

/// The key of a report.
pub open spec fn report_key(r: GenAiCapabilityReport) -> Seq<Option<Seq<char>>> {
    seq![
        text::optional(r.provider),
        text::optional(r.model),
        Some(r.emitter_fingerprint@),
        Some(r.emitter@),
        Some(r.adapter_rule@),
    ]
}

/// The report is that of some spans.
pub open spec fn reports_on(r: GenAiCapabilityReport, own: Seq<CapabilitySpan>) -> bool {
    &&& r.request_count == own.len()
    &&& assesses(r.input_tokens, readings(own, CapabilityMetric::InputTokens), false)
    &&& assesses(r.output_tokens, readings(own, CapabilityMetric::OutputTokens), false)
    &&& assesses(r.cache_creation_tokens, readings(own, CapabilityMetric::CacheCreationTokens), false)
    &&& assesses(r.cache_read_tokens, readings(own, CapabilityMetric::CacheReadTokens), false)
    &&& assesses(r.ttft, readings(own, CapabilityMetric::Ttft), true)
    &&& is_uncorrelated(r.correlation)
}

/// One report for each key that occurs, in the order of the keys, on the spans with that key.
pub open spec fn is_report_list(
    reports: Seq<GenAiCapabilityReport>,
    spans: Seq<CapabilitySpan>,
    keys: CapabilityKeys,
) -> bool {
    &&& reports.len() == group::first_seen(span_keys(spans, keys)).len()
    &&& forall|k: int|
        0 <= k < reports.len() ==> {
            &&& span_keys(spans, keys).contains(report_key(#[trigger] reports[k]))
            &&& reports_on(reports[k], group::gather(span_keys(spans, keys), spans, report_key(reports[k])))
        }
    &&& forall|j: int, k: int|
        0 <= j < k < reports.len() ==> {
            let a = report_key(#[trigger] reports[j]);
            let b = report_key(#[trigger] reports[k]);
            order::labels_leq(a, b) && a != b
        }
}

/// The number of physical spans that are examined. A query looks at one more.
pub const CAPABILITY_QUERY_LIMIT: usize = 10_000;

/// The number of physical spans: every delivery of every span.
pub open spec fn deliveries(spans: Seq<CapabilitySpan>) -> int {
    spans.len() + sums::sum_by(spans, duplicates())
}

/// The sample holds one physical span beyond the limit, which only shows that there are more.
pub open spec fn is_full(spans: Seq<CapabilitySpan>) -> bool {
    deliveries(spans) == CAPABILITY_QUERY_LIMIT + 1
}

/// The spans, the newest first, without the oldest delivery: without the last span, or with one
/// delivery less of it where it was delivered more than once.
pub open spec fn without_oldest(spans: Seq<CapabilitySpan>) -> Seq<CapabilitySpan> {
    let last = spans.last();
    if last.duplicate_deliveries == 0 {
        spans.drop_last()
    } else {
        spans.drop_last().push(
            CapabilitySpan { duplicate_deliveries: (last.duplicate_deliveries - 1) as usize, ..last },
        )
    }
}

/// The spans that are examined: the sample, up to the limit.
pub open spec fn examined(spans: Seq<CapabilitySpan>) -> Seq<CapabilitySpan> {
    if is_full(spans) {
        without_oldest(spans)
    } else {
        spans
    }
}

/// At most as many physical spans as the limit says are examined, and all of them where the sample is
/// not full.
pub proof fn samples_are_bounded(spans: Seq<CapabilitySpan>)
    requires
        deliveries(spans) <= CAPABILITY_QUERY_LIMIT + 1,
    ensures
        deliveries(examined(spans)) <= CAPABILITY_QUERY_LIMIT,
        deliveries(examined(spans)) == deliveries(spans) - if is_full(spans) {
            1int
        } else {
            0int
        },
{
    if is_full(spans) {
        if spans.len() == 0 {
            assert(sums::sum_by(spans, duplicates()) == 0);
        }
        let last = spans.last();
        assert(sums::sum_by(spans, duplicates()) == sums::sum_by(spans.drop_last(), duplicates())
            + last.duplicate_deliveries);
        if last.duplicate_deliveries > 0 {
            let fewer = CapabilitySpan {
                duplicate_deliveries: (last.duplicate_deliveries - 1) as usize,
                ..last
            };
            assert(spans.drop_last().push(fewer).drop_last() =~= spans.drop_last());
        }
    }
}

/// Counts the physical spans.
fn count_deliveries(spans: &Vec<CapabilitySpan>) -> (n: u128)
    ensures
        n == deliveries(spans@),
{
    let mut n: u128 = 0;
    let mut i: usize = 0;
    while i < spans.len()
        invariant
            i <= spans@.len(),
            n == i + sums::sum_by(spans@.take(i as int), duplicates()),
            n <= i * 0x1_0000_0000_0000_0000,
        decreases spans@.len() - i,
    {
        proof {
            sums::lemma_sum_by_take(spans@, i as int, duplicates());
            assert((i + 1) * 0x1_0000_0000_0000_0000 == i * 0x1_0000_0000_0000_0000
                + 0x1_0000_0000_0000_0000) by (nonlinear_arith);
        }
        n = n + 1 + spans[i].duplicate_deliveries as u128;
        i = i + 1;
    }
    assert(spans@.take(i as int) =~= spans@);
    n
}

/// Leaves out the oldest delivery of a full sample.
fn examine(spans: Vec<CapabilitySpan>, full: bool) -> (out: Vec<CapabilitySpan>)
    requires
        full == is_full(spans@),
    ensures
        out@ == examined(spans@),
{
    let mut out = spans;
    if full {
        let ghost all = out@;
        match out.pop() {
            Some(span) => {
                if span.duplicate_deliveries > 0 {
                    let mut span = span;
                    span.duplicate_deliveries = span.duplicate_deliveries - 1;
                    out.push(span);
                }
            },
            None => {
                assert(sums::sum_by(all, duplicates()) == 0);
            },
        }
        assert(out@ =~= without_oldest(all));
    }
    out
}

/// Copies what a span says of a measurement.
fn copy_reading(span: &CapabilitySpan, metric: CapabilityMetric) -> (s: MetricSample)
    ensures
        s@ == reading(*span, metric),
{
    let late: bool = match span.ttft_ns {
        Some(t) => {
            let d: i128 = span.end_time as i128 - span.start_time as i128;
            d > 0 && 10 * (t as i128) >= 9 * d
        },
        None => false,
    };
    let (r, degenerate) = match metric {
        CapabilityMetric::InputTokens => (&span.input_tokens, false),
        CapabilityMetric::OutputTokens => (&span.output_tokens, false),
        CapabilityMetric::CacheCreationTokens => (&span.cache_creation_tokens, false),
        CapabilityMetric::CacheReadTokens => (&span.cache_read_tokens, false),
        CapabilityMetric::Ttft => (&span.ttft, late),
    };
    MetricSample {
        observation: r.observation,
        source_attribute: text::copy_optional(&r.source_attribute),
        degenerate,
    }
}

/// Assesses one measurement over the spans at some positions.
fn assess_at(
    spans: &Vec<CapabilitySpan>,
    positions: &Vec<usize>,
    metric: CapabilityMetric,
    ttft: bool,
) -> (c: GenAiMetricCapability)
    requires
        forall|k: int| 0 <= k < positions@.len() ==> (#[trigger] positions@[k]) < spans@.len(),
    ensures
        assesses(c, readings(group::at_positions(spans@, positions@), metric), ttft),
{
    let ghost own = group::at_positions(spans@, positions@);
    let mut samples: Vec<MetricSample> = Vec::new();
    let mut k: usize = 0;
    while k < positions.len()
        invariant
            k <= positions@.len(),
            own == group::at_positions(spans@, positions@),
            forall|j: int| 0 <= j < positions@.len() ==> (#[trigger] positions@[j]) < spans@.len(),
            samples@.len() == k,
            forall|j: int| 0 <= j < k ==> (#[trigger] samples@[j])@ == reading(own[j], metric),
        decreases positions@.len() - k,
    {
        let at: usize = positions[k];
        samples.push(copy_reading(&spans[at], metric));
        k = k + 1;
    }
    assert(sample_views(samples@) =~= readings(own, metric));
    assess(&samples, ttft)
}

/// The key of a span.
fn make_key(span: &CapabilitySpan, keys: &CapabilityKeys) -> (key: Vec<Option<String>>)
    ensures
        key.id() == span_key(*span, *keys),
        key@.len() == 5,
        key@[2] is Some,
        key@[3] is Some,
        key@[4] is Some,
{
    let mut key: Vec<Option<String>> = Vec::new();
    key.push(first_semconv_attribute(&span.attributes, &keys.system));
    key.push(first_semconv_attribute(&span.attributes, &keys.request_model));
    key.push(
        Some(
            capability_fingerprint(
                span.adapter_rule.as_str(),
                &span.service_name,
                &span.scope_name,
                &span.scope_version,
            ),
        ),
    );
    key.push(Some(emitter_name(span.emitter).to_owned()));
    key.push(Some(span.adapter_rule.clone()));
    assert(key.id() =~= span_key(*span, *keys));
    key
}

/// The text of a label that is known to be there.
fn known_text(label: &Option<String>) -> (s: String)
    requires
        label is Some,
    ensures
        Some(s@) == text::optional(*label),
{
    match label {
        Some(s) => s.clone(),
        None => String::new(),
    }
}

/// The positions of the spans that count.
fn find_counted(
    spans: &Vec<CapabilitySpan>,
    keys: &CapabilityKeys,
    model: &Option<String>,
) -> (positions: Vec<usize>)
    ensures
        forall|k: int| 0 <= k < positions@.len() ==> (#[trigger] positions@[k]) < spans@.len(),
        group::at_positions(spans@, positions@) == counted(spans@, *keys, text::optional(*model)),
{
    let ghost asked = text::optional(*model);
    let mut positions: Vec<usize> = Vec::new();
    let mut i: usize = 0;
    assert(group::at_positions(spans@, positions@) =~= counted(spans@.take(0), *keys, asked));
    while i < spans.len()
        invariant
            i <= spans@.len(),
            asked == text::optional(*model),
            forall|k: int| 0 <= k < positions@.len() ==> (#[trigger] positions@[k]) < spans@.len(),
            group::at_positions(spans@, positions@) == counted(spans@.take(i as int), *keys, asked),
        decreases spans@.len() - i,
    {
        let span = &spans[i];
        assert(spans@.take(i + 1).drop_last() =~= spans@.take(i as int));
        let found = first_semconv_attribute(&span.attributes, &keys.request_model);
        let fits: bool = match model {
            None => true,
            Some(_) => found.same(model),
        };
        if span.is_request && fits {
            let ghost had = positions@;
            positions.push(i);
            assert(group::at_positions(spans@, positions@) =~= group::at_positions(spans@, had).push(
                spans@[i as int],
            ));
        }
        i = i + 1;
    }
    assert(spans@.take(i as int) =~= spans@);
    positions
}

/// Adds up the deliveries beyond the first of the spans at some positions.
fn count_duplicates(spans: &Vec<CapabilitySpan>, positions: &Vec<usize>) -> (n: usize)
    requires
        forall|k: int| 0 <= k < positions@.len() ==> (#[trigger] positions@[k]) < spans@.len(),
        sums::sum_by(group::at_positions(spans@, positions@), duplicates()) <= usize::MAX,
    ensures
        n == sums::sum_by(group::at_positions(spans@, positions@), duplicates()),
{
    let ghost own = group::at_positions(spans@, positions@);
    let mut n: usize = 0;
    let mut k: usize = 0;
    while k < positions.len()
        invariant
            k <= positions@.len(),
            own == group::at_positions(spans@, positions@),
            forall|j: int| 0 <= j < positions@.len() ==> (#[trigger] positions@[j]) < spans@.len(),
            sums::sum_by(own, duplicates()) <= usize::MAX,
            n == sums::sum_by(own.take(k as int), duplicates()),
        decreases positions@.len() - k,
    {
        proof {
            sums::lemma_sum_by_prefix(own, k + 1, duplicates());
            sums::lemma_sum_by_take(own, k as int, duplicates());
        }
        let at: usize = positions[k];
        n = n + spans[at].duplicate_deliveries;
        k = k + 1;
    }
    assert(own.take(k as int) =~= own);
    n
}

/// Reports on the spans of one key.
fn make_report(
    spans: &Vec<CapabilitySpan>,
    positions: &Vec<usize>,
    key: &Vec<Option<String>>,
) -> (r: GenAiCapabilityReport)
    requires
        forall|k: int| 0 <= k < positions@.len() ==> (#[trigger] positions@[k]) < spans@.len(),
        key@.len() == 5,
        key@[2] is Some,
        key@[3] is Some,
        key@[4] is Some,
    ensures
        report_key(r) == key.id(),
        reports_on(r, group::at_positions(spans@, positions@)),
{
    let r = GenAiCapabilityReport {
        provider: text::copy_optional(&key[0]),
        model: text::copy_optional(&key[1]),
        emitter_fingerprint: known_text(&key[2]),
        emitter: known_text(&key[3]),
        adapter_rule: known_text(&key[4]),
        request_count: positions.len(),
        input_tokens: assess_at(spans, positions, CapabilityMetric::InputTokens, false),
        output_tokens: assess_at(spans, positions, CapabilityMetric::OutputTokens, false),
        cache_creation_tokens: assess_at(
            spans,
            positions,
            CapabilityMetric::CacheCreationTokens,
            false,
        ),
        cache_read_tokens: assess_at(spans, positions, CapabilityMetric::CacheReadTokens, false),
        ttft: assess_at(spans, positions, CapabilityMetric::Ttft, true),
        correlation: GenAiCorrelationProvenance {
            rule: "none".to_owned(),
            matched_count: 0,
            unmatched_count: 0,
            rejected_count: 0,
            ambiguous_count: 0,
        },
    };
    assert(report_key(r) =~= key.id());
    r
}

/// The positions, in one list, of the items at some positions of another.
fn look_up(positions: &Vec<usize>, members: &Vec<usize>) -> (out: Vec<usize>)
    requires
        forall|k: int| 0 <= k < members@.len() ==> (#[trigger] members@[k]) < positions@.len(),
    ensures
        out@ == group::at_positions(positions@, members@),
{
    let mut out: Vec<usize> = Vec::new();
    let mut k: usize = 0;
    while k < members.len()
        invariant
            k <= members@.len(),
            forall|j: int| 0 <= j < members@.len() ==> (#[trigger] members@[j]) < positions@.len(),
            out@.len() == k,
            forall|j: int| 0 <= j < k ==> #[trigger] out@[j] == positions@[members@[j] as int],
        decreases members@.len() - k,
    {
        let at: usize = members[k];
        out.push(positions[at]);
        k = k + 1;
    }
    assert(out@ =~= group::at_positions(positions@, members@));
    out
}

/// Reports how far the spans of a recent sample, the newest first, cover the measurements.
pub fn genai_capabilities(
    spans: Vec<CapabilitySpan>,
    keys: &CapabilityKeys,
    model: &Option<String>,
) -> (r: GenAiCapabilityResponse)
    requires
        sums::sum_by(counted(examined(spans@), *keys, text::optional(*model)), duplicates())
            <= usize::MAX,
    ensures
        ({
            let own = counted(examined(spans@), *keys, text::optional(*model));
            &&& r.truncated == is_full(spans@)
            &&& r.canonical_span_count == own.len()
            &&& r.duplicate_span_count == sums::sum_by(own, duplicates())
            &&& is_report_list(r.reports@, own, *keys)
        }),
{
    let ghost sample = spans@;
    let truncated: bool = count_deliveries(&spans) == CAPABILITY_QUERY_LIMIT as u128 + 1;
    let spans = examine(spans, truncated);
    let positions = find_counted(&spans, keys, model);
    let ghost own = counted(examined(sample), *keys, text::optional(*model));
    let duplicate_span_count: usize = count_duplicates(&spans, &positions);
    let mut key_list: Vec<Vec<Option<String>>> = Vec::new();
    let mut i: usize = 0;
    while i < positions.len()
        invariant
            i <= positions@.len(),
            own == group::at_positions(spans@, positions@),
            forall|k: int| 0 <= k < positions@.len() ==> (#[trigger] positions@[k]) < spans@.len(),
            key_list@.len() == i,
            forall|j: int| 0 <= j < i ==> (#[trigger] key_list@[j]).id() == span_key(own[j], *keys),
        decreases positions@.len() - i,
    {
        let at: usize = positions[i];
        key_list.push(make_key(&spans[at], keys));
        i = i + 1;
    }
    let ghost ids = span_keys(own, *keys);
    assert(group::ids(key_list@) =~= ids);
    let groups = group::group_positions(&key_list);
    let ghost seen = group::first_seen(ids);
    proof {
        group::lemma_first_seen(ids);
    }
    let mut unsorted: Vec<GenAiCapabilityReport> = Vec::new();
    let mut ranks: Vec<LabelsRank> = Vec::new();
    let mut g: usize = 0;
    while g < groups.len()
        invariant
            g <= groups@.len(),
            own == group::at_positions(spans@, positions@),
            forall|k: int| 0 <= k < positions@.len() ==> (#[trigger] positions@[k]) < spans@.len(),
            ids == span_keys(own, *keys),
            ids.len() == positions@.len() <= usize::MAX,
            seen == group::first_seen(ids),
            forall|id: Seq<Option<Seq<char>>>| #[trigger] seen.contains(id) <==> ids.contains(id),
            group::is_grouping(groups@, ids, group::all_positions(ids.len())),
            unsorted@.len() == g,
            ranks@.len() == g,
            forall|h: int|
                0 <= h < g ==> {
                    &&& report_key(#[trigger] unsorted@[h]) == seen[h]
                    &&& reports_on(unsorted@[h], group::gather(ids, own, seen[h]))
                },
            forall|h: int| 0 <= h < g ==> (#[trigger] ranks@[h]).labels.id() == seen[h],
        decreases groups@.len() - g,
    {
        let ghost id = groups@[g as int].key.id();
        proof {
            assert(id == seen[g as int]);
            assert(seen.contains(id));
            let at = ids.index_of(id);
            assert(ids[at] == span_key(own[at], *keys));
            assert(groups@[g as int].key@.len() == id.len());
            assert(id[2] == groups@[g as int].key@[2].id());
            assert(id[3] == groups@[g as int].key@[3].id());
            assert(id[4] == groups@[g as int].key@[4].id());
            group::lemma_gather_positions(ids, own, id);
        }
        let members = look_up(&positions, &groups[g].members);
        proof {
            assert(group::at_positions(spans@, members@) =~= group::at_positions(own, groups@[g as int].members@));
        }
        let report = make_report(&spans, &members, &groups[g].key);
        ranks.push(LabelsRank { labels: groups[g].key.duplicate() });
        unsorted.push(report);
        g = g + 1;
    }
    let order = order::order_of(&ranks);
    proof {
        order::sorting_is_a_rearrangement(ranks@, order@);
    }
    let ghost all = unsorted@;
    let reports = order::arrange(unsorted, &order);
    proof {
        assert forall|k: int| 0 <= k < reports@.len() implies ids.contains(
            report_key(#[trigger] reports@[k]),
        ) && reports_on(reports@[k], group::gather(ids, own, report_key(reports@[k]))) by {
            let from = order@[k] as int;
            assert(reports@[k] == all[from]);
            assert(report_key(all[from]) == seen[from]);
            assert(seen.contains(seen[from]));
        }
        assert forall|j: int, k: int| 0 <= j < k < reports@.len() implies {
            let a = report_key(#[trigger] reports@[j]);
            let b = report_key(#[trigger] reports@[k]);
            order::labels_leq(a, b) && a != b
        } by {
            let a = order@[j] as int;
            let b = order@[k] as int;
            assert(reports@[j] == all[a] && reports@[k] == all[b]);
            assert(report_key(all[a]) == seen[a] && report_key(all[b]) == seen[b]);
            assert(order::precedes(ranks@, a, b));
            assert(a != b && seen[a] != seen[b]);
        }
    }
    GenAiCapabilityResponse {
        reports,
        canonical_span_count: positions.len(),
        duplicate_span_count,
        truncated,
    }
}

/// An assessment counts every eligible span once: valid, invalid or absent.
pub proof fn observations_partition(samples: Seq<MetricSampleView>)
    ensures
        observed_as(samples, MetricObservation::Valid) + observed_as(samples, MetricObservation::Invalid)
            + observed_as(samples, MetricObservation::Absent) == samples.len(),
        0 <= degenerate(samples) <= observed_as(samples, MetricObservation::Valid),
        sources(samples).len() <= samples.len(),
    decreases samples.len(),
{
    if samples.len() > 0 {
        observations_partition(samples.drop_last());
    }
}

} // verus!

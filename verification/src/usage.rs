//! The token usage command: its time range, what it asks of the store, and the rows it shows.
use crate::error::Error;
use crate::group;
use crate::group::Key;
use crate::order;
use crate::order::SmallestFirst;
use crate::parse;
use crate::sums;
use crate::text;
use vstd::prelude::*;

verus! {

/// The seconds in a unit of time.
pub open spec fn unit_seconds(unit: char) -> Option<int> {
    if unit == 'h' {
        Some(3600)
    } else if unit == 'd' {
        Some(86400)
    } else if unit == 'm' {
        Some(60)
    } else {
        None
    }
}

/// The text is a whole number followed by a unit of time.
pub open spec fn is_duration(s: Seq<char>) -> bool {
    s.len() > 0 && unit_seconds(s.last()) is Some && parse::u64_value(s.drop_last()) is Some
}

/// The refusal of a text that is no duration.
pub open spec fn refusal(s: Seq<char>) -> Seq<char> {
    "Invalid time duration '"@ + s
        + "'. Use a number followed by 'h' (hours), 'd' (days), or 'm' (minutes), e.g. '1h', '24h', '7d', '30d'"@
}

fn seconds_of(unit: char) -> (seconds: Option<i64>)
    ensures
        match seconds {
            Some(n) => unit_seconds(unit) == Some(n as int),
            None => unit_seconds(unit) is None,
        },
{
    if unit == 'h' {
        Some(3600)
    } else if unit == 'd' {
        Some(86400)
    } else if unit == 'm' {
        Some(60)
    } else {
        None
    }
}

/// Accepts a duration as it stands and refuses every other text.
pub fn validate_since(s: &str) -> (r: Result<String, String>)
    requires
        s@.len() > 0 ==> s@.last() < '\u{80}',
    ensures
        match r {
            Ok(t) => is_duration(s@) && t@ == s@,
            Err(e) => !is_duration(s@) && e@ == refusal(s@),
        },
{
    let n: usize = s.unicode_len();
    if n > 0 {
        let unit = s.get_char(n - 1);
        let digits = s.substring_char(0, n - 1);
        proof {
            assert(digits@ =~= s@.drop_last());
        }
        if seconds_of(unit).is_some() && parse::parse_u64(digits).is_some() {
            return Ok(s.to_owned());
        }
    }
    let mut e = "Invalid time duration '".to_owned();
    e.append(s);
    e.append(
        "'. Use a number followed by 'h' (hours), 'd' (days), or 'm' (minutes), e.g. '1h', '24h', '7d', '30d'",
    );
    Err(e)
}

/// The nanoseconds that a range spans.
pub open spec fn range_nanos(range: Seq<char>) -> Option<int> {
    if range.len() == 0 {
        None
    } else {
        match (unit_seconds(range.last()), parse::i64_value(range.drop_last())) {
            (Some(seconds), Some(n)) => Some(n * seconds * 1_000_000_000),
            _ => None,
        }
    }
}

/// Why a range is refused.
pub open spec fn range_refusal(range: Seq<char>) -> Seq<char> {
    if range.len() > 0 && range.last() == 'h' {
        "Invalid hour format"@
    } else if range.len() > 0 && range.last() == 'd' {
        "Invalid day format"@
    } else if range.len() > 0 && range.last() == 'm' {
        "Invalid minute format"@
    } else {
        "Invalid time range format. Use format like '1h', '24h', '7d', '30d'"@
    }
}

/// The length of a range and its start can be expressed in nanoseconds.
pub open spec fn is_expressible(range: Seq<char>, now: i64) -> bool {
    range_nanos(range) matches Some(d) ==> i64::MIN <= d <= i64::MAX && i64::MIN <= now - d <= i64::MAX
}

/// Whether the length of a range that ends `now` and its start can be expressed in nanoseconds.
pub fn range_fits(range: &str, now: i64) -> (fits: bool)
    ensures
        fits == is_expressible(range@, now),
{
    let n: usize = range.unicode_len();
    if n == 0 {
        return true;
    }
    let digits = range.substring_char(0, n - 1);
    proof {
        assert(digits@ =~= range@.drop_last());
    }
    match (seconds_of(range.get_char(n - 1)), parse::parse_i64(digits)) {
        (Some(seconds), Some(count)) => {
            assert(-0x8000_0000_0000_0000 * 86400 <= count * seconds <= 0x8000_0000_0000_0000 * 86400)
                by (nonlinear_arith)
                requires
                    -0x8000_0000_0000_0000 <= count <= 0x8000_0000_0000_0000,
                    0 <= seconds <= 86400,
            ;
            let nanos: i128 = count as i128 * seconds as i128 * 1_000_000_000;
            let start: i128 = now as i128 - nanos;
            i64::MIN as i128 <= nanos && nanos <= i64::MAX as i128 && i64::MIN as i128 <= start && start
                <= i64::MAX as i128
        },
        _ => true,
    }
}

/// The start and the end of the time range that ends `now`.
pub fn parse_time_range(range: &str, now: i64) -> (r: Result<(i64, i64), Error>)
    requires
        is_expressible(range@, now),
    ensures
        match r {
            Ok((start, end)) => range_nanos(range@) == Some(end - start) && end == now,
            Err(Error::ApiError(e)) => range_nanos(range@) is None && e@ == range_refusal(range@),
        },
{
    let n: usize = range.unicode_len();
    if n > 0 {
        let unit = range.get_char(n - 1);
        let digits = range.substring_char(0, n - 1);
        proof {
            assert(digits@ =~= range@.drop_last());
        }
        if let Some(seconds) = seconds_of(unit) {
            return match parse::parse_i64(digits) {
                Some(count) => {
                    let nanos: i128 = count as i128 * seconds as i128 * 1_000_000_000;
                    let start: i64 = (now as i128 - nanos) as i64;
                    Ok((start, now))
                },
                None => {
                    let e = if unit == 'h' {
                        "Invalid hour format"
                    } else if unit == 'd' {
                        "Invalid day format"
                    } else {
                        "Invalid minute format"
                    };
                    Err(Error::ApiError(e.to_owned()))
                },
            };
        }
    }
    Err(
        Error::ApiError(
            "Invalid time range format. Use format like '1h', '24h', '7d', '30d'".to_owned(),
        ),
    )
}

/// An accepted duration names a time range, unless its number does not fit in 63 bits.
pub proof fn accepted_durations_are_ranges(s: Seq<char>)
    requires
        is_duration(s),
        parse::unsigned_value(s.drop_last()) matches Some(n) && n <= i64::MAX,
    ensures
        range_nanos(s) is Some,
{
    let digits = s.drop_last();
    if digits.len() > 0 && digits[0] == '-' {
        parse::lemma_sign_is_no_digit(digits);
    }
}

/// The heading over the usage of a time range.
pub fn format_header(range: &str) -> (s: String)
    ensures
        s@ == "Token Usage Summary (Last "@ + range@ + ")"@,
{
    let mut s = "Token Usage Summary (Last ".to_owned();
    s.append(range);
    s.append(")");
    s
}

/// The arguments of the usage command.
pub struct UsageCommand {
    /// The time range, such as "24h".
    pub since: String,
    /// Only models whose name holds this.
    pub model: Option<String>,
    /// Only systems whose name holds this.
    pub system: Option<String>,
    pub by_model: bool,
    pub by_system: bool,
    /// How many of the most expensive calls to show.
    pub top: Option<usize>,
    pub by_session: bool,
    pub latency: bool,
    pub truncation: bool,
    pub cache_rate: bool,
    pub request_params: bool,
    pub conv_depth: bool,
    pub tools: bool,
    pub error_types: bool,
    pub model_drift: bool,
}

/// What the usage command can ask of the store.
#[derive(Clone, Copy)]
pub enum UsageQuery {
    TokenUsage,
    /// All calls of the time range, of which the most expensive are shown.
    TopSpans,
    LatencyStats,
    TruncationRate,
    CacheHitRate,
    RequestParams,
    ConversationDepth,
    ToolUsage(usize),
    ErrorTypes,
    ModelDrift,
    /// All calls of the time range, which are added up by session.
    SessionSpans,
}

/// The queries, and one more where it is `wanted`.
pub open spec fn with_query(queries: Seq<UsageQuery>, wanted: bool, q: UsageQuery) -> Seq<UsageQuery> {
    if wanted {
        queries.push(q)
    } else {
        queries
    }
}

/// The parts of the usage report.
#[derive(Clone, Copy)]
pub enum UsageSection {
    Summary,
    Models,
    Systems,
    TopSpans(usize),
    Sessions,
    LatencyStats,
    TruncationRate,
    CacheHitRate,
    RequestParams,
    ConversationDepth,
    ToolUsage,
    ErrorTypes,
    ModelDrift,
}

/// The sections, and one more where it is `wanted`.
#[verifier::opaque]
pub open spec fn with_section(
    sections: Seq<UsageSection>,
    wanted: bool,
    section: UsageSection,
) -> Seq<UsageSection> {
    if wanted {
        sections.push(section)
    } else {
        sections
    }
}

impl UsageCommand {
    /// The queries that the command makes, in their order.
    pub open spec fn queries(self) -> Seq<UsageQuery> {
        let q0 = Seq::<UsageQuery>::empty().push(UsageQuery::TokenUsage);
        let q1 = with_query(q0, self.top is Some, UsageQuery::TopSpans);
        let q2 = with_query(q1, self.latency, UsageQuery::LatencyStats);
        let q3 = with_query(q2, self.truncation, UsageQuery::TruncationRate);
        let q4 = with_query(q3, self.cache_rate, UsageQuery::CacheHitRate);
        let q5 = with_query(q4, self.request_params, UsageQuery::RequestParams);
        let q6 = with_query(q5, self.conv_depth, UsageQuery::ConversationDepth);
        let q7 = with_query(q6, self.tools, UsageQuery::ToolUsage(50));
        let q8 = with_query(q7, self.error_types, UsageQuery::ErrorTypes);
        let q9 = with_query(q8, self.model_drift, UsageQuery::ModelDrift);
        with_query(q9, self.by_session, UsageQuery::SessionSpans)
    }

    /// Lists the queries that the command makes.
    pub fn plan(&self) -> (queries: Vec<UsageQuery>)
        ensures
            queries@ == self.queries(),
    {
        let mut queries: Vec<UsageQuery> = Vec::new();
        queries.push(UsageQuery::TokenUsage);
        if self.top.is_some() {
            queries.push(UsageQuery::TopSpans);
        }
        if self.latency {
            queries.push(UsageQuery::LatencyStats);
        }
        if self.truncation {
            queries.push(UsageQuery::TruncationRate);
        }
        if self.cache_rate {
            queries.push(UsageQuery::CacheHitRate);
        }
        if self.request_params {
            queries.push(UsageQuery::RequestParams);
        }
        if self.conv_depth {
            queries.push(UsageQuery::ConversationDepth);
        }
        if self.tools {
            queries.push(UsageQuery::ToolUsage(50));
        }
        if self.error_types {
            queries.push(UsageQuery::ErrorTypes);
        }
        if self.model_drift {
            queries.push(UsageQuery::ModelDrift);
        }
        if self.by_session {
            queries.push(UsageQuery::SessionSpans);
        }
        queries
    }

    /// The models are shown: they were asked for, or the systems were not.
    pub open spec fn shows_models(self) -> bool {
        self.by_model || self.model is Some || (!self.by_system && self.system is None)
    }

    /// The systems are shown.
    pub open spec fn shows_systems(self) -> bool {
        self.by_system || self.system is Some
    }

    /// The sections that the command shows, in their order.
    pub open spec fn shown(self) -> Seq<UsageSection> {
        let s0 = Seq::<UsageSection>::empty().push(UsageSection::Summary);
        let s1 = with_section(s0, self.shows_models(), UsageSection::Models);
        let s2 = with_section(s1, self.shows_systems(), UsageSection::Systems);
        let s3 = match self.top {
            Some(n) => s2.push(UsageSection::TopSpans(n)),
            None => s2,
        };
        let s4 = with_section(s3, self.by_session, UsageSection::Sessions);
        let s5 = with_section(s4, self.latency, UsageSection::LatencyStats);
        let s6 = with_section(s5, self.truncation, UsageSection::TruncationRate);
        let s7 = with_section(s6, self.cache_rate, UsageSection::CacheHitRate);
        let s8 = with_section(s7, self.request_params, UsageSection::RequestParams);
        let s9 = with_section(s8, self.conv_depth, UsageSection::ConversationDepth);
        let s10 = with_section(s9, self.tools, UsageSection::ToolUsage);
        let s11 = with_section(s10, self.error_types, UsageSection::ErrorTypes);
        with_section(s11, self.model_drift, UsageSection::ModelDrift)
    }

    /// Lists the sections that the command shows.
    pub fn sections(&self) -> (sections: Vec<UsageSection>)
        ensures
            sections@ == self.shown(),
    {
        let mut sections: Vec<UsageSection> = Vec::new();
        sections.push(UsageSection::Summary);
        proof {
            reveal(with_section);
        }
        if self.by_model || self.model.is_some() || (!self.by_system && self.system.is_none()) {
            sections.push(UsageSection::Models);
        }
        if self.by_system || self.system.is_some() {
            sections.push(UsageSection::Systems);
        }
        if let Some(n) = self.top {
            sections.push(UsageSection::TopSpans(n));
        }
        if self.by_session {
            sections.push(UsageSection::Sessions);
        }
        if self.latency {
            sections.push(UsageSection::LatencyStats);
        }
        if self.truncation {
            sections.push(UsageSection::TruncationRate);
        }
        if self.cache_rate {
            sections.push(UsageSection::CacheHitRate);
        }
        if self.request_params {
            sections.push(UsageSection::RequestParams);
        }
        if self.conv_depth {
            sections.push(UsageSection::ConversationDepth);
        }
        if self.tools {
            sections.push(UsageSection::ToolUsage);
        }
        if self.error_types {
            sections.push(UsageSection::ErrorTypes);
        }
        if self.model_drift {
            sections.push(UsageSection::ModelDrift);
        }
        sections
    }
}

/// The sections begin with some others.
#[verifier::opaque]
spec fn begins_with(sections: Seq<UsageSection>, start: Seq<UsageSection>) -> bool {
    start.is_prefix_of(sections)
}

/// One more section leaves those before it in place.
proof fn lemma_with_section(
    start: Seq<UsageSection>,
    sections: Seq<UsageSection>,
    wanted: bool,
    section: UsageSection,
)
    requires
        begins_with(sections, start),
    ensures
        begins_with(with_section(sections, wanted, section), start),
{
    reveal(with_section);
    reveal(begins_with);
    assert(start =~= sections.push(section).subrange(0, start.len() as int)) by {
        assert(start == sections.subrange(0, start.len() as int));
    }
}

/// The sections from `s` on, in their order.
spec fn with_details(command: UsageCommand, s: Seq<UsageSection>) -> Seq<UsageSection> {
    let s4 = with_section(s, command.by_session, UsageSection::Sessions);
    let s5 = with_section(s4, command.latency, UsageSection::LatencyStats);
    let s6 = with_section(s5, command.truncation, UsageSection::TruncationRate);
    let s7 = with_section(s6, command.cache_rate, UsageSection::CacheHitRate);
    let s8 = with_section(s7, command.request_params, UsageSection::RequestParams);
    let s9 = with_section(s8, command.conv_depth, UsageSection::ConversationDepth);
    let s10 = with_section(s9, command.tools, UsageSection::ToolUsage);
    let s11 = with_section(s10, command.error_types, UsageSection::ErrorTypes);
    with_section(s11, command.model_drift, UsageSection::ModelDrift)
}

/// The details leave the sections before them in place.
proof fn lemma_with_details(command: UsageCommand, start: Seq<UsageSection>, s: Seq<UsageSection>)
    requires
        begins_with(s, start),
    ensures
        begins_with(with_details(command, s), start),
{
    lemma_with_section(start, s, command.by_session, UsageSection::Sessions);
    let s4 = with_section(s, command.by_session, UsageSection::Sessions);
    lemma_with_section(start, s4, command.latency, UsageSection::LatencyStats);
    let s5 = with_section(s4, command.latency, UsageSection::LatencyStats);
    lemma_with_section(start, s5, command.truncation, UsageSection::TruncationRate);
    let s6 = with_section(s5, command.truncation, UsageSection::TruncationRate);
    lemma_with_section(start, s6, command.cache_rate, UsageSection::CacheHitRate);
    let s7 = with_section(s6, command.cache_rate, UsageSection::CacheHitRate);
    lemma_with_section(start, s7, command.request_params, UsageSection::RequestParams);
    let s8 = with_section(s7, command.request_params, UsageSection::RequestParams);
    lemma_with_section(start, s8, command.conv_depth, UsageSection::ConversationDepth);
    let s9 = with_section(s8, command.conv_depth, UsageSection::ConversationDepth);
    lemma_with_section(start, s9, command.tools, UsageSection::ToolUsage);
    let s10 = with_section(s9, command.tools, UsageSection::ToolUsage);
    lemma_with_section(start, s10, command.error_types, UsageSection::ErrorTypes);
    let s11 = with_section(s10, command.error_types, UsageSection::ErrorTypes);
    lemma_with_section(start, s11, command.model_drift, UsageSection::ModelDrift);
}

/// Whatever the arguments, the summary comes first, and the models or the systems come next.
pub proof fn usage_is_always_broken_down(command: UsageCommand)
    ensures
        command.shown().len() > 1,
        command.shown()[0] == UsageSection::Summary,
        command.shown()[1] == UsageSection::Models || command.shown()[1] == UsageSection::Systems,
{
    let s0 = Seq::<UsageSection>::empty().push(UsageSection::Summary);
    let s1 = with_section(s0, command.shows_models(), UsageSection::Models);
    let s2 = with_section(s1, command.shows_systems(), UsageSection::Systems);
    let start = if command.shows_models() {
        s0.push(UsageSection::Models)
    } else {
        s0.push(UsageSection::Systems)
    };
    let s3 = match command.top {
        Some(n) => s2.push(UsageSection::TopSpans(n)),
        None => s2,
    };
    assert(begins_with(s3, start)) by {
        reveal(with_section);
        reveal(begins_with);
        assert(start =~= s3.subrange(0, 2));
    }
    lemma_with_details(command, start, s3);
    assert(command.shown() == with_details(command, s3));
    reveal(begins_with);
    assert(start == command.shown().subrange(0, 2));
    assert(command.shown().subrange(0, 2)[0] == command.shown()[0]);
    assert(command.shown().subrange(0, 2)[1] == command.shown()[1]);
}

/// What a query asks for, in words.
pub open spec fn subject(query: UsageQuery) -> Seq<char> {
    match query {
        UsageQuery::TokenUsage => "token usage"@,
        UsageQuery::TopSpans => "top spans"@,
        UsageQuery::LatencyStats => "latency stats"@,
        UsageQuery::TruncationRate => "truncation rate"@,
        UsageQuery::CacheHitRate => "cache hit rate"@,
        UsageQuery::RequestParams => "request param profile"@,
        UsageQuery::ConversationDepth => "conversation depth"@,
        UsageQuery::ToolUsage(_) => "tool usage"@,
        UsageQuery::ErrorTypes => "error types"@,
        UsageQuery::ModelDrift => "model drift"@,
        UsageQuery::SessionSpans => "spans"@,
    }
}

/// The failure of a query, with its cause.
pub fn query_failure(query: UsageQuery, cause: &str) -> (e: Error)
    ensures
        e matches Error::ApiError(m) && m@ == "Failed to query "@ + subject(query) + ": "@ + cause@,
{
    let what = match query {
        UsageQuery::TokenUsage => "token usage",
        UsageQuery::TopSpans => "top spans",
        UsageQuery::LatencyStats => "latency stats",
        UsageQuery::TruncationRate => "truncation rate",
        UsageQuery::CacheHitRate => "cache hit rate",
        UsageQuery::RequestParams => "request param profile",
        UsageQuery::ConversationDepth => "conversation depth",
        UsageQuery::ToolUsage(_) => "tool usage",
        UsageQuery::ErrorTypes => "error types",
        UsageQuery::ModelDrift => "model drift",
        UsageQuery::SessionSpans => "spans",
    };
    let mut m = "Failed to query ".to_owned();
    m.append(what);
    m.append(": ");
    m.append(cause);
    Error::ApiError(m)
}

/// Where the prices came from, in words. The built-in rates are those of one vendor.
pub open spec fn pricing_text(from_litellm: bool, vendor: Seq<char>) -> Seq<char> {
    if from_litellm {
        "LiteLLM"@
    } else {
        "fallback (hardcoded "@ + vendor + " rates)"@
    }
}

/// Says where the prices came from.
pub fn pricing_source(from_litellm: bool, vendor: &str) -> (s: String)
    ensures
        s@ == pricing_text(from_litellm, vendor@),
{
    if from_litellm {
        return "LiteLLM".to_owned();
    }
    let mut s = "fallback (hardcoded ".to_owned();
    s.append(vendor);
    s.append(" rates)");
    s
}

/// The usage of one model or one system.
pub struct NamedUsage {
    pub name: String,
    pub input_tokens: u64,
    pub output_tokens: u64,
    pub requests: usize,
}

/// A row of usage with its total.
pub struct UsageRow {
    pub name: String,
    pub input_tokens: u64,
    pub output_tokens: u64,
    pub total_tokens: u64,
    pub requests: usize,
}

/// `part` stands at position `i` of `s`.
pub open spec fn stands_at(s: Seq<char>, part: Seq<char>, i: int) -> bool {
    0 <= i <= s.len() - part.len() && s.subrange(i, i + part.len()) == part
}

/// `part` stands somewhere in `s`.
pub open spec fn holds_text(s: Seq<char>, part: Seq<char>) -> bool {
    exists|i: int| stands_at(s, part, i)
}

/// Whether `part` stands somewhere in `s`.
pub fn contains_text(s: &str, part: &str) -> (r: bool)
    ensures
        r == holds_text(s@, part@),
{
    let n: usize = s.unicode_len();
    let k: usize = part.unicode_len();
    if k > n {
        return false;
    }
    let mut i: usize = 0;
    while i <= n - k
        invariant
            k <= n,
            n == s@.len(),
            k == part@.len(),
            i <= n - k + 1,
            forall|j: int| 0 <= j < i ==> !#[trigger] stands_at(s@, part@, j),
        decreases n - k + 1 - i,
    {
        let window = s.substring_char(i, i + k);
        if text::same_text(window, part) {
            assert(stands_at(s@, part@, i as int));
            return true;
        }
        if i == n - k {
            return false;
        }
        i = i + 1;
    }
    false
}

/// The name passes the filter: there is none, or the name holds it.
pub open spec fn passes(name: Seq<char>, filter: Option<Seq<char>>) -> bool {
    match filter {
        Some(f) => holds_text(name, f),
        None => true,
    }
}

/// The row of a usage.
pub open spec fn is_row_of(row: UsageRow, usage: NamedUsage) -> bool {
    &&& row.name@ == usage.name@
    &&& row.input_tokens == usage.input_tokens
    &&& row.output_tokens == usage.output_tokens
    &&& row.total_tokens == usage.input_tokens + usage.output_tokens
    &&& row.requests == usage.requests
}

/// The positions of the usages that pass the filter.
pub open spec fn passing(usages: Seq<NamedUsage>, filter: Option<Seq<char>>) -> Seq<int>
    decreases usages.len(),
{
    if usages.len() == 0 {
        Seq::empty()
    } else {
        let earlier = passing(usages.drop_last(), filter);
        if passes(usages.last().name@, filter) {
            earlier.push(usages.len() - 1)
        } else {
            earlier
        }
    }
}

/// Exactly the usages that pass the filter are shown, in their order.
pub proof fn filter_shows_what_passes(usages: Seq<NamedUsage>, filter: Option<Seq<char>>)
    ensures
        forall|k: int|
            0 <= k < passing(usages, filter).len() ==> 0 <= #[trigger] passing(usages, filter)[k]
                < usages.len() && passes(usages[passing(usages, filter)[k]].name@, filter),
        forall|j: int, k: int|
            0 <= j < k < passing(usages, filter).len() ==> #[trigger] passing(usages, filter)[j]
                < #[trigger] passing(usages, filter)[k],
        forall|i: int|
            0 <= i < usages.len() && passes(#[trigger] usages[i].name@, filter) ==> passing(
                usages,
                filter,
            ).contains(i),
    decreases usages.len(),
{
    if usages.len() > 0 {
        let prior = usages.drop_last();
        let earlier = passing(prior, filter);
        let all = passing(usages, filter);
        filter_shows_what_passes(prior, filter);
        assert forall|k: int| 0 <= k < all.len() implies 0 <= #[trigger] all[k] < usages.len() && passes(
            usages[all[k]].name@,
            filter,
        ) by {
            if k < earlier.len() {
                assert(all[k] == earlier[k]);
                assert(prior[earlier[k]] == usages[all[k]]);
            }
        }
        assert forall|i: int| 0 <= i < usages.len() && passes(#[trigger] usages[i].name@, filter) implies all.contains(
            i,
        ) by {
            if i < prior.len() {
                assert(prior[i] == usages[i]);
                assert(earlier.contains(i));
                let k = earlier.index_of(i);
                assert(all[k] == i);
            } else {
                assert(all[all.len() - 1] == i);
            }
        }
    }
}

/// The rows of the usages that pass the filter, in their order.
pub fn usage_rows(usages: &Vec<NamedUsage>, filter: &Option<String>) -> (rows: Vec<UsageRow>)
    requires
        forall|i: int|
            0 <= i < usages@.len() && passes((#[trigger] usages@[i]).name@, text::optional(*filter))
                ==> usages@[i].input_tokens + usages@[i].output_tokens <= u64::MAX,
    ensures
        rows@.len() == passing(usages@, text::optional(*filter)).len(),
        forall|k: int|
            0 <= k < rows@.len() ==> is_row_of(
                #[trigger] rows@[k],
                usages@[passing(usages@, text::optional(*filter))[k]],
            ),
{
    let ghost f = text::optional(*filter);
    let mut rows: Vec<UsageRow> = Vec::new();
    let mut i: usize = 0;
    while i < usages.len()
        invariant
            i <= usages@.len(),
            f == text::optional(*filter),
            forall|j: int|
                0 <= j < usages@.len() && passes((#[trigger] usages@[j]).name@, f)
                    ==> usages@[j].input_tokens + usages@[j].output_tokens <= u64::MAX,
            rows@.len() == passing(usages@.take(i as int), f).len(),
            forall|k: int|
                0 <= k < rows@.len() ==> is_row_of(
                    #[trigger] rows@[k],
                    usages@[passing(usages@.take(i as int), f)[k]],
                ),
        decreases usages@.len() - i,
    {
        let u = &usages[i];
        proof {
            assert(usages@.take(i + 1).drop_last() =~= usages@.take(i as int));
        }
        let pass: bool = match filter {
            Some(part) => contains_text(u.name.as_str(), part.as_str()),
            None => true,
        };
        if pass {
            rows.push(
                UsageRow {
                    name: u.name.clone(),
                    input_tokens: u.input_tokens,
                    output_tokens: u.output_tokens,
                    total_tokens: u.input_tokens + u.output_tokens,
                    requests: u.requests,
                },
            );
        }
        i = i + 1;
    }
    assert(usages@.take(i as int) =~= usages@);
    rows
}

/// The tokens of one call.
#[derive(Clone, Copy)]
pub struct CallTokens {
    pub input: u64,
    pub output: u64,
}

/// The input of a call, as a function.
pub open spec fn call_input() -> spec_fn(CallTokens) -> int {
    |c: CallTokens| c.input as int
}

/// The output of a call, as a function.
pub open spec fn call_output() -> spec_fn(CallTokens) -> int {
    |c: CallTokens| c.output as int
}

/// The usage of one session. `calls` are the positions of its calls.
pub struct SessionRow {
    pub session_id: String,
    pub requests: usize,
    pub input_tokens: u64,
    pub output_tokens: u64,
    pub calls: Vec<usize>,
}

/// The session that a call counts towards.
pub open spec fn session_name(session: Option<Seq<char>>) -> Seq<char> {
    match session {
        Some(s) => s,
        None => "(no session)"@,
    }
}

/// The sessions that the calls count towards.
pub open spec fn session_names(sessions: Seq<Option<String>>) -> Seq<Seq<char>> {
    Seq::new(sessions.len(), |i: int| session_name(text::optional(sessions[i])))
}

/// The row adds up the calls of its session.
pub open spec fn is_session_row(
    row: SessionRow,
    session: Seq<char>,
    names: Seq<Seq<char>>,
    calls: Seq<CallTokens>,
) -> bool {
    let own = group::gather(names, calls, session);
    &&& row.session_id@ == session
    &&& row.requests == own.len()
    &&& row.input_tokens == sums::sum_by(own, call_input())
    &&& row.output_tokens == sums::sum_by(own, call_output())
    &&& row.calls@ == group::gather(names, group::all_positions(calls.len()), session)
}

fn add_calls(calls: &Vec<CallTokens>) -> (t: CallTokens)
    requires
        sums::sum_by(calls@, call_input()) <= u64::MAX,
        sums::sum_by(calls@, call_output()) <= u64::MAX,
    ensures
        t.input == sums::sum_by(calls@, call_input()),
        t.output == sums::sum_by(calls@, call_output()),
{
    let mut t = CallTokens { input: 0, output: 0 };
    let mut i: usize = 0;
    while i < calls.len()
        invariant
            i <= calls@.len(),
            sums::sum_by(calls@, call_input()) <= u64::MAX,
            sums::sum_by(calls@, call_output()) <= u64::MAX,
            t.input == sums::sum_by(calls@.take(i as int), call_input()),
            t.output == sums::sum_by(calls@.take(i as int), call_output()),
        decreases calls@.len() - i,
    {
        proof {
            sums::lemma_sum_by_take(calls@, i as int, call_input());
            sums::lemma_sum_by_take(calls@, i as int, call_output());
            sums::lemma_sum_by_prefix(calls@, i + 1, call_input());
            sums::lemma_sum_by_prefix(calls@, i + 1, call_output());
        }
        t = CallTokens { input: t.input + calls[i].input, output: t.output + calls[i].output };
        i = i + 1;
    }
    assert(calls@.take(i as int) =~= calls@);
    t
}

fn name_sessions(sessions: &Vec<Option<String>>) -> (names: Vec<String>)
    ensures
        group::ids(names@) == session_names(sessions@),
{
    let mut names: Vec<String> = Vec::new();
    let mut i: usize = 0;
    while i < sessions.len()
        invariant
            i <= sessions@.len(),
            names@.len() == i,
            forall|j: int| 0 <= j < i ==> (#[trigger] names@[j])@ == session_names(sessions@)[j],
        decreases sessions@.len() - i,
    {
        let name = match &sessions[i] {
            Some(s) => s.clone(),
            None => "(no session)".to_owned(),
        };
        names.push(name);
        i = i + 1;
    }
    assert(group::ids(names@) =~= session_names(sessions@));
    names
}

/// Adds up the calls of each session, in the order in which the sessions first occur.
pub fn session_rows(sessions: &Vec<Option<String>>, calls: &Vec<CallTokens>) -> (rows: Vec<SessionRow>)
    requires
        sessions@.len() == calls@.len(),
        sums::sum_by(calls@, call_input()) <= u64::MAX,
        sums::sum_by(calls@, call_output()) <= u64::MAX,
    ensures
        rows@.len() == group::first_seen(session_names(sessions@)).len(),
        forall|g: int|
            0 <= g < rows@.len() ==> is_session_row(
                #[trigger] rows@[g],
                group::first_seen(session_names(sessions@))[g],
                session_names(sessions@),
                calls@,
            ),
{
    let ghost ids = session_names(sessions@);
    let names = name_sessions(sessions);
    assert(names@.len() == group::ids(names@).len());
    let groups = group::group_values(&names, calls);
    let positions = group::group_positions(&names);
    let mut rows: Vec<SessionRow> = Vec::new();
    let mut g: usize = 0;
    while g < groups.len()
        invariant
            g <= groups@.len(),
            groups@.len() == positions@.len(),
            ids.len() == calls@.len(),
            group::is_grouping(groups@, ids, calls@),
            group::is_grouping(positions@, ids, group::all_positions(calls@.len())),
            sums::sum_by(calls@, call_input()) <= u64::MAX,
            sums::sum_by(calls@, call_output()) <= u64::MAX,
            rows@.len() == g,
            forall|k: int|
                0 <= k < g ==> is_session_row(#[trigger] rows@[k], group::first_seen(ids)[k], ids, calls@),
        decreases groups@.len() - g,
    {
        proof {
            let id = group::first_seen(ids)[g as int];
            assert(groups@[g as int].key.id() == id);
            assert(positions@[g as int].key.id() == id);
            sums::lemma_gather_bound(ids, calls@, id, call_input());
            sums::lemma_gather_bound(ids, calls@, id, call_output());
        }
        let t = add_calls(&groups[g].members);
        rows.push(
            SessionRow {
                session_id: groups[g].key.clone(),
                requests: groups[g].members.len(),
                input_tokens: t.input,
                output_tokens: t.output,
                calls: positions[g].members.clone(),
            },
        );
        g = g + 1;
    }
    rows
}

/// The input of a row, as a function.
pub open spec fn row_input() -> spec_fn(SessionRow) -> int {
    |r: SessionRow| r.input_tokens as int
}

/// The output of a row, as a function.
pub open spec fn row_output() -> spec_fn(SessionRow) -> int {
    |r: SessionRow| r.output_tokens as int
}

/// The requests of a row, as a function.
pub open spec fn row_requests() -> spec_fn(SessionRow) -> int {
    |r: SessionRow| r.requests as int
}

/// Every call is one request.
spec fn one_request() -> spec_fn(CallTokens) -> int {
    |c: CallTokens| 1int
}

proof fn lemma_requests_are_calls(calls: Seq<CallTokens>)
    ensures
        sums::sum_by(calls, one_request()) == calls.len(),
    decreases calls.len(),
{
    if calls.len() > 0 {
        lemma_requests_are_calls(calls.drop_last());
    }
}

/// The sessions together hold the requests, the input and the output of all calls.
pub proof fn sessions_keep_the_calls(
    rows: Seq<SessionRow>,
    sessions: Seq<Option<String>>,
    calls: Seq<CallTokens>,
)
    requires
        sessions.len() == calls.len(),
        rows.len() == group::first_seen(session_names(sessions)).len(),
        forall|g: int|
            0 <= g < rows.len() ==> is_session_row(
                #[trigger] rows[g],
                group::first_seen(session_names(sessions))[g],
                session_names(sessions),
                calls,
            ),
    ensures
        sums::sum_by(rows, row_requests()) == calls.len(),
        sums::sum_by(rows, row_input()) == sums::sum_by(calls, call_input()),
        sums::sum_by(rows, row_output()) == sums::sum_by(calls, call_output()),
{
    let ids = session_names(sessions);
    sums::groups_keep_the_total(ids, calls, call_input());
    sums::lemma_same_sums(rows, row_input(), sums::group_sums(ids, calls, call_input()));
    sums::groups_keep_the_total(ids, calls, call_output());
    sums::lemma_same_sums(rows, row_output(), sums::group_sums(ids, calls, call_output()));
    sums::groups_keep_the_total(ids, calls, one_request());
    assert forall|g: int| 0 <= g < rows.len() implies row_requests()(#[trigger] rows[g]) == sums::group_sums(
        ids,
        calls,
        one_request(),
    )[g] by {
        lemma_requests_are_calls(group::gather(ids, calls, group::first_seen(ids)[g]));
    }
    sums::lemma_same_sums(rows, row_requests(), sums::group_sums(ids, calls, one_request()));
    lemma_requests_are_calls(calls);
}

/// How costs sort, the largest first. Each cost is given by a number that grows with it.
pub open spec fn cost_ranks(costs: Seq<i64>) -> Seq<SmallestFirst> {
    Seq::new(costs.len(), |i: int| SmallestFirst((-costs[i]) as i128))
}

/// The smaller of a limit and a length.
pub open spec fn at_most(limit: usize, len: nat) -> int {
    if limit < len {
        limit as int
    } else {
        len as int
    }
}

/// The positions of the largest costs, the largest first; equal costs stay in their order. Each cost is
/// given by a number that grows with it.
pub fn dearest(costs: &Vec<i64>, limit: usize) -> (positions: Vec<usize>)
    ensures
        positions@ == order::sorting(cost_ranks(costs@)).take(at_most(limit, costs@.len())),
        positions@.len() == at_most(limit, costs@.len()),
        positions@.no_duplicates(),
        forall|k: int| 0 <= k < positions@.len() ==> (#[trigger] positions@[k]) < costs@.len(),
        forall|j: int, k: int|
            0 <= j < k < positions@.len() ==> {
                let a = #[trigger] positions@[j] as int;
                let b = #[trigger] positions@[k] as int;
                costs@[a] > costs@[b] || (costs@[a] == costs@[b] && a < b)
            },
        forall|p: usize, k: int|
            p < costs@.len() && !(#[trigger] positions@.contains(p)) && 0 <= k < positions@.len()
                ==> costs@[p as int] <= costs@[#[trigger] positions@[k] as int],
{
    let mut ranks: Vec<SmallestFirst> = Vec::new();
    let mut i: usize = 0;
    while i < costs.len()
        invariant
            i <= costs@.len(),
            ranks@.len() == i,
            forall|j: int| 0 <= j < i ==> #[trigger] ranks@[j] == cost_ranks(costs@)[j],
        decreases costs@.len() - i,
    {
        ranks.push(SmallestFirst(-(costs[i] as i128)));
        i = i + 1;
    }
    assert(ranks@ =~= cost_ranks(costs@));
    let mut positions = order::order_of(&ranks);
    let ghost all = positions@;
    proof {
        order::sorting_is_a_rearrangement(ranks@, all);
        assert forall|j: int, k: int| 0 <= j < k < all.len() implies {
            let a = #[trigger] all[j] as int;
            let b = #[trigger] all[k] as int;
            costs@[a] > costs@[b] || (costs@[a] == costs@[b] && a < b)
        } by {
            assert(order::precedes(ranks@, all[j] as int, all[k] as int));
        }
    }
    if limit < positions.len() {
        positions.truncate(limit);
    }
    proof {
        assert(positions@ =~= all.take(at_most(limit, costs@.len())));
        assert forall|p: usize, k: int|
            p < costs@.len() && !(#[trigger] positions@.contains(p)) && 0 <= k < positions@.len() implies costs@[p as int]
            <= costs@[#[trigger] positions@[k] as int] by {
            assert(all.contains(p));
            let q = all.index_of(p);
            if q < positions@.len() {
                assert(positions@[q] == p);
            }
            assert(all[k] == positions@[k]);
            assert(k < q);
            assert(all[q] == p);
        }
    }
    positions
}

/// Of the listed calls none is cheaper than one that is left out.
pub proof fn no_dearer_call_is_left_out(costs: Seq<i64>, positions: Seq<usize>, limit: usize, p: usize, k: int)
    requires
        costs.len() <= usize::MAX,
        positions == order::sorting(cost_ranks(costs)).take(at_most(limit, costs.len())),
        p < costs.len(),
        !positions.contains(p),
        0 <= k < positions.len(),
    ensures
        costs[p as int] <= costs[positions[k] as int],
{
    let ranks = cost_ranks(costs);
    let all = order::sorting(ranks);
    order::lemma_sorting(ranks);
    order::sorting_is_a_rearrangement(ranks, all);
    assert(all.contains(p));
    let q = all.index_of(p);
    if q < positions.len() {
        assert(positions[q] == p);
    }
    assert(order::precedes(ranks, all[k] as int, all[q] as int));
}

} // verus!

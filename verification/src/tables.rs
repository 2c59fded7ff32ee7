//! The tables of the usage command: what each shows, and in what colour.
//!
//! Costs, rates and averages come in as they are to be shown.
use crate::identity::ModelDriftPair;
use crate::latency;
use crate::layout;
use crate::records::{CacheHitRateByModel, TruncationRateByModel};
use crate::text;
use crate::tools::ToolUsage;
use crate::usage::UsageRow;
use vstd::prelude::*;

verus! {

/// The colour of a cell.
#[derive(Clone, Copy, Debug, PartialEq, Eq, Structural)]
pub enum Tone {
    Plain,
    Cyan,
    Yellow,
    Red,
    Green,
    White,
}

/// A cell of a table.
pub struct Cell {
    pub text: String,
    pub tone: Tone,
}

/// A table with its title.
pub struct Table {
    pub title: String,
    pub heads: Vec<Cell>,
    pub rows: Vec<Vec<Cell>>,
}

/// What a section shows: a line where there is nothing to show, or a table.
pub enum Section {
    Message(String),
    Table(Table),
}

/// What a cell shows.
pub type CellView = (Seq<char>, Tone);

/// What a table shows.
pub struct TableView {
    pub title: Seq<char>,
    pub heads: Seq<CellView>,
    pub rows: Seq<Seq<CellView>>,
}

/// What a section shows.
pub enum SectionView {
    Message(Seq<char>),
    Table(TableView),
}

/// What the cells show.
pub open spec fn cells_view(cells: Seq<Cell>) -> Seq<CellView> {
    Seq::new(cells.len(), |i: int| (cells[i].text@, cells[i].tone))
}

/// What the rows show.
pub open spec fn rows_view(rows: Seq<Vec<Cell>>) -> Seq<Seq<CellView>> {
    Seq::new(rows.len(), |i: int| cells_view(rows[i]@))
}

impl View for Table {
    type V = TableView;

    open spec fn view(&self) -> TableView {
        TableView { title: self.title@, heads: cells_view(self.heads@), rows: rows_view(self.rows@) }
    }
}

impl View for Section {
    type V = SectionView;

    open spec fn view(&self) -> SectionView {
        match self {
            Section::Message(m) => SectionView::Message(m@),
            Section::Table(t) => SectionView::Table(t@),
        }
    }
}

fn plain(text: &str) -> (c: Cell)
    ensures
        c.text@ == text@,
        c.tone == Tone::Plain,
{
    Cell { text: text.to_owned(), tone: Tone::Plain }
}

fn toned(text: &str, tone: Tone) -> (c: Cell)
    ensures
        c.text@ == text@,
        c.tone == tone,
{
    Cell { text: text.to_owned(), tone }
}

/// A count with its digits in groups.
pub open spec fn number_text(n: u64) -> Seq<char> {
    layout::grouped(n as nat)
}

/// A name, or a stand-in where it is not known.
pub open spec fn name_or(name: Option<Seq<char>>, otherwise: Seq<char>) -> Seq<char> {
    match name {
        Some(n) => n,
        None => otherwise,
    }
}

fn take_or(name: &Option<String>, otherwise: &str) -> (s: String)
    ensures
        s@ == name_or(text::optional(*name), otherwise@),
{
    match name {
        Some(n) => n.clone(),
        None => otherwise.to_owned(),
    }
}

/// A count that may be unknown.
pub open spec fn number_or(n: Option<i64>, otherwise: Seq<char>) -> Seq<char> {
    match n {
        Some(v) => number_text(v as u64),
        None => otherwise,
    }
}

fn render_number_or(n: Option<i64>, otherwise: &str) -> (s: String)
    ensures
        s@ == number_or(n, otherwise@),
{
    match n {
        Some(v) => layout::format_number(#[verifier::truncate] (v as u64)),
        None => otherwise.to_owned(),
    }
}

/// A duration in milliseconds.
pub open spec fn millis_text(ms: int) -> Seq<char> {
    text::signed_decimal(ms) + "ms"@
}

fn render_millis(ms: i64) -> (s: String)
    ensures
        s@ == millis_text(ms as int),
{
    let mut s = text::render_i64(ms);
    s.append("ms");
    s
}

/// A time to first token, which is shown where any was recorded.
pub open spec fn ttft_text(count: usize, ms: Option<i64>) -> Seq<char> {
    match ms {
        Some(v) => if count > 0 {
            millis_text(v as int)
        } else {
            "—"@
        },
        None => "—"@,
    }
}

fn render_ttft(count: usize, ms: Option<i64>) -> (s: String)
    ensures
        s@ == ttft_text(count, ms),
{
    match ms {
        Some(v) => if count > 0 {
            render_millis(v)
        } else {
            "—".to_owned()
        },
        None => "—".to_owned(),
    }
}

/// A long name that is cut can be cut there.
pub open spec fn can_truncate(s: Seq<char>, max: int) -> bool {
    vstd::utf8::encode_utf8(s).len() > max ==> layout::is_boundary(s, max - 1)
}

/// The tokens of all calls.
pub struct TokenUsageSummary {
    pub total_input_tokens: u64,
    pub total_output_tokens: u64,
    pub total_requests: usize,
    pub total_cache_creation_tokens: u64,
    pub total_cache_read_tokens: u64,
}

/// A label and a value.
pub open spec fn pair(label: Seq<char>, value: Seq<char>) -> Seq<CellView> {
    seq![(label, Tone::Plain), (value, Tone::Plain)]
}

fn render_pair(label: &str, value: &str) -> (cells: Vec<Cell>)
    ensures
        cells_view(cells@) == pair(label@, value@),
{
    let cells: Vec<Cell> = vec![plain(label), plain(value)];
    assert(cells_view(cells@) =~= pair(label@, value@));
    cells
}

/// The heads of a table of labels and values.
pub open spec fn pair_heads() -> Seq<CellView> {
    seq![("Metric"@, Tone::Cyan), ("Value"@, Tone::Cyan)]
}

fn render_pair_heads() -> (heads: Vec<Cell>)
    ensures
        cells_view(heads@) == pair_heads(),
{
    let heads: Vec<Cell> = vec![toned("Metric", Tone::Cyan), toned("Value", Tone::Cyan)];
    assert(cells_view(heads@) =~= pair_heads());
    heads
}

fn add_row(rows: &mut Vec<Vec<Cell>>, row: Vec<Cell>)
    ensures
        rows_view(final(rows)@) == rows_view(old(rows)@).push(cells_view(row@)),
{
    rows.push(row);
    assert(rows_view(rows@) =~= rows_view(old(rows)@).push(cells_view(row@)));
}

fn no_rows() -> (rows: Vec<Vec<Cell>>)
    ensures
        rows_view(rows@) == Seq::<Seq<CellView>>::empty(),
{
    let rows: Vec<Vec<Cell>> = Vec::new();
    assert(rows_view(rows@) =~= Seq::<Seq<CellView>>::empty());
    rows
}

/// The rows, and one more where `shown`.
pub open spec fn also(rows: Seq<Seq<CellView>>, shown: bool, row: Seq<CellView>) -> Seq<Seq<CellView>> {
    if shown {
        rows.push(row)
    } else {
        rows
    }
}

/// What the summary shows: the cache only where it was used.
pub open spec fn summary_table(s: TokenUsageSummary) -> TableView {
    let rows = Seq::<Seq<CellView>>::empty().push(
        pair("Total Input Tokens"@, number_text(s.total_input_tokens)),
    ).push(pair("Total Output Tokens"@, number_text(s.total_output_tokens))).push(
        pair("Total Tokens"@, number_text((s.total_input_tokens + s.total_output_tokens) as u64)),
    ).push(pair("Total Requests"@, text::decimal(s.total_requests as nat)));
    let created = also(
        rows,
        s.total_cache_creation_tokens > 0,
        pair("Cache Creation Tokens"@, number_text(s.total_cache_creation_tokens)),
    );
    TableView {
        title: ""@,
        heads: pair_heads(),
        rows: also(
            created,
            s.total_cache_read_tokens > 0,
            pair("Cache Read Tokens"@, number_text(s.total_cache_read_tokens)),
        ),
    }
}

/// Lays out the summary.
pub fn display_summary(s: &TokenUsageSummary) -> (t: Table)
    requires
        s.total_input_tokens + s.total_output_tokens <= u64::MAX,
    ensures
        t@ == summary_table(*s),
{
    let mut rows = no_rows();
    add_row(
        &mut rows,
        render_pair("Total Input Tokens", layout::format_number(s.total_input_tokens).as_str()),
    );
    add_row(
        &mut rows,
        render_pair("Total Output Tokens", layout::format_number(s.total_output_tokens).as_str()),
    );
    let total: u64 = s.total_input_tokens + s.total_output_tokens;
    add_row(&mut rows, render_pair("Total Tokens", layout::format_number(total).as_str()));
    add_row(
        &mut rows,
        render_pair("Total Requests", text::render_u64(s.total_requests as u64).as_str()),
    );
    if s.total_cache_creation_tokens > 0 {
        add_row(
            &mut rows,
            render_pair(
                "Cache Creation Tokens",
                layout::format_number(s.total_cache_creation_tokens).as_str(),
            ),
        );
    }
    if s.total_cache_read_tokens > 0 {
        add_row(
            &mut rows,
            render_pair("Cache Read Tokens", layout::format_number(s.total_cache_read_tokens).as_str()),
        );
    }
    Table { title: "".to_owned(), heads: render_pair_heads(), rows }
}

/// The usage of a model or a system with its cost.
pub struct CostedRow {
    pub usage: UsageRow,
    pub cost: String,
}

/// The heads of a usage table, under what it breaks the usage down by.
pub open spec fn usage_heads(subject: Seq<char>) -> Seq<CellView> {
    seq![
        (subject, Tone::Cyan),
        ("Input"@, Tone::Cyan),
        ("Output"@, Tone::Cyan),
        ("Total"@, Tone::Cyan),
        ("Requests"@, Tone::Cyan),
        ("Cost"@, Tone::Cyan),
    ]
}

fn render_usage_heads(subject: &str) -> (heads: Vec<Cell>)
    ensures
        cells_view(heads@) == usage_heads(subject@),
{
    let heads: Vec<Cell> = vec![
        toned(subject, Tone::Cyan),
        toned("Input", Tone::Cyan),
        toned("Output", Tone::Cyan),
        toned("Total", Tone::Cyan),
        toned("Requests", Tone::Cyan),
        toned("Cost", Tone::Cyan),
    ];
    assert(cells_view(heads@) =~= usage_heads(subject@));
    heads
}

/// A row of a usage table.
pub open spec fn usage_cells(r: CostedRow) -> Seq<CellView> {
    seq![
        (r.usage.name@, Tone::Plain),
        (number_text(r.usage.input_tokens), Tone::Plain),
        (number_text(r.usage.output_tokens), Tone::Plain),
        (number_text(r.usage.total_tokens), Tone::Plain),
        (text::decimal(r.usage.requests as nat), Tone::Plain),
        (r.cost@, Tone::Plain),
    ]
}

fn render_usage_row(r: &CostedRow) -> (cells: Vec<Cell>)
    ensures
        cells_view(cells@) == usage_cells(*r),
{
    let cells: Vec<Cell> = vec![
        plain(r.usage.name.as_str()),
        plain(layout::format_number(r.usage.input_tokens).as_str()),
        plain(layout::format_number(r.usage.output_tokens).as_str()),
        plain(layout::format_number(r.usage.total_tokens).as_str()),
        plain(text::render_u64(r.usage.requests as u64).as_str()),
        plain(r.cost.as_str()),
    ];
    assert(cells_view(cells@) =~= usage_cells(*r));
    cells
}

/// A usage table under its title, or a message where it has no rows.
pub open spec fn usage_section(
    rows: Seq<CostedRow>,
    subject: Seq<char>,
    title: Seq<char>,
    message: Seq<char>,
) -> SectionView {
    if rows.len() == 0 {
        SectionView::Message(message)
    } else {
        SectionView::Table(
            TableView {
                title,
                heads: usage_heads(subject),
                rows: Seq::new(rows.len(), |i: int| usage_cells(rows[i])),
            },
        )
    }
}

fn display_usage(rows: &Vec<CostedRow>, subject: &str, title: &str, message: &str) -> (section: Section)
    ensures
        section@ == usage_section(rows@, subject@, title@, message@),
{
    if rows.len() == 0 {
        return Section::Message(message.to_owned());
    }
    let mut laid: Vec<Vec<Cell>> = Vec::new();
    let mut i: usize = 0;
    while i < rows.len()
        invariant
            i <= rows@.len(),
            laid@.len() == i,
            forall|j: int| 0 <= j < i ==> cells_view((#[trigger] laid@[j])@) == usage_cells(rows@[j]),
        decreases rows@.len() - i,
    {
        laid.push(render_usage_row(&rows[i]));
        i = i + 1;
    }
    let t = Table { title: title.to_owned(), heads: render_usage_heads(subject), rows: laid };
    assert(t@.rows =~= Seq::new(rows@.len(), |i: int| usage_cells(rows@[i])));
    Section::Table(t)
}

/// Lays out the usage of each model.
pub fn display_by_model(rows: &Vec<CostedRow>) -> (section: Section)
    ensures
        section@ == usage_section(rows@, "Model"@, "Breakdown by Model:"@, "No model data available"@),
{
    display_usage(rows, "Model", "Breakdown by Model:", "No model data available")
}

/// Lays out the usage of each system.
pub fn display_by_system(rows: &Vec<CostedRow>) -> (section: Section)
    ensures
        section@ == usage_section(rows@, "System"@, "Breakdown by System:"@, "No system data available"@),
{
    display_usage(rows, "System", "Breakdown by System:", "No system data available")
}

/// The usage of a session with its cost.
pub struct SessionCostRow {
    pub session_id: String,
    pub requests: usize,
    pub input_tokens: u64,
    pub output_tokens: u64,
    pub cost: String,
}

/// The heads of the usage of each session.
pub open spec fn by_session_heads() -> Seq<CellView> {
    seq![
        ("Session ID"@, Tone::Cyan),
            ("Requests"@, Tone::Cyan),
            ("Input"@, Tone::Cyan),
            ("Output"@, Tone::Cyan),
            ("Cost"@, Tone::Cyan),
    ]
}

fn render_by_session_heads() -> (heads: Vec<Cell>)
    ensures
        cells_view(heads@) == by_session_heads(),
{
    let heads: Vec<Cell> = vec![
        toned("Session ID", Tone::Cyan),
        toned("Requests", Tone::Cyan),
        toned("Input", Tone::Cyan),
        toned("Output", Tone::Cyan),
        toned("Cost", Tone::Cyan),
    ];
    assert(cells_view(heads@) =~= by_session_heads());
    heads
}

/// A row of the usage of each session.
pub open spec fn by_session_cells(r: SessionCostRow) -> Seq<CellView> {
    seq![
        (layout::truncated(r.session_id@, 32), Tone::Plain),
        (text::decimal(r.requests as nat), Tone::Plain),
        (number_text(r.input_tokens), Tone::Plain),
        (number_text(r.output_tokens), Tone::Plain),
        (r.cost@, Tone::Plain),
    ]
}

fn render_by_session_row(r: &SessionCostRow) -> (cells: Vec<Cell>)
    requires
        can_truncate((*r).session_id@, 32),
    ensures
        cells_view(cells@) == by_session_cells(*r),
{
    let cells: Vec<Cell> = vec![
        plain(layout::truncate(r.session_id.as_str(), 32).as_str()),
        plain(text::render_u64(r.requests as u64).as_str()),
        plain(layout::format_number(r.input_tokens).as_str()),
        plain(layout::format_number(r.output_tokens).as_str()),
        plain(r.cost.as_str()),
    ];
    assert(cells_view(cells@) =~= by_session_cells(*r));
    cells
}

/// What the usage of each session shows.
pub open spec fn by_session_section(rows: Seq<SessionCostRow>) -> SectionView {
    if rows.len() == 0 {
        SectionView::Message("No session data found in range"@)
    } else {
        SectionView::Table(
            TableView {
                title: "Breakdown by Session:"@,
                heads: by_session_heads(),
                rows: Seq::new(rows.len(), |i: int| by_session_cells(rows[i])),
            },
        )
    }
}

/// Lays out the usage of each session.
pub fn display_by_session(rows: &Vec<SessionCostRow>) -> (section: Section)
    requires
        forall|i: int| 0 <= i < rows@.len() ==> can_truncate((#[trigger] rows@[i]).session_id@, 32),
    ensures
        section@ == by_session_section(rows@),
{
    if rows.len() == 0 {
        return Section::Message("No session data found in range".to_owned());
    }
    let mut laid: Vec<Vec<Cell>> = Vec::new();
    let mut i: usize = 0;
    while i < rows.len()
        invariant
            i <= rows@.len(),
            forall|j: int| 0 <= j < rows@.len() ==> can_truncate((#[trigger] rows@[j]).session_id@, 32),
            laid@.len() == i,
            forall|j: int| 0 <= j < i ==> cells_view((#[trigger] laid@[j])@) == by_session_cells(rows@[j]),
        decreases rows@.len() - i,
    {
        laid.push(render_by_session_row(&rows[i]));
        i = i + 1;
    }
    let t = Table { title: "Breakdown by Session:".to_owned(), heads: render_by_session_heads(), rows: laid };
    assert(t@.rows =~= Seq::new(rows@.len(), |i: int| by_session_cells(rows@[i])));
    Section::Table(t)
}

/// The latency of a model.
pub struct LatencyRow {
    pub model: Option<String>,
    pub count: usize,
    pub p50_ms: i64,
    pub p95_ms: i64,
    pub p99_ms: i64,
    /// Tokens per second, as they are shown.
    pub rate_p50: Option<String>,
    pub rate_p95: Option<String>,
    pub input_tokens_p50: Option<i64>,
    pub input_tokens_p95: Option<i64>,
    /// The output over the input, as it is shown.
    pub output_input_ratio_p50: Option<String>,
    pub ttft_count: usize,
    pub ttft_p50_ms: Option<i64>,
    pub ttft_p95_ms: Option<i64>,
}

/// The heads of the latency of each model.
pub open spec fn latency_stats_heads() -> Seq<CellView> {
    seq![
        ("Model"@, Tone::Cyan),
            ("Calls"@, Tone::Cyan),
            ("p50 ms"@, Tone::Cyan),
            ("p95 ms"@, Tone::Cyan),
            ("p99 ms"@, Tone::Cyan),
            ("Tok/s* p50"@, Tone::Yellow),
            ("Tok/s* p95"@, Tone::Yellow),
            ("Context p50"@, Tone::Cyan),
            ("Context p95"@, Tone::Cyan),
            ("Out/In p50"@, Tone::Cyan),
            ("TTFT p50"@, Tone::Yellow),
            ("TTFT p95"@, Tone::Yellow),
    ]
}

fn render_latency_stats_heads() -> (heads: Vec<Cell>)
    ensures
        cells_view(heads@) == latency_stats_heads(),
{
    let heads: Vec<Cell> = vec![
        toned("Model", Tone::Cyan),
        toned("Calls", Tone::Cyan),
        toned("p50 ms", Tone::Cyan),
        toned("p95 ms", Tone::Cyan),
        toned("p99 ms", Tone::Cyan),
        toned("Tok/s* p50", Tone::Yellow),
        toned("Tok/s* p95", Tone::Yellow),
        toned("Context p50", Tone::Cyan),
        toned("Context p95", Tone::Cyan),
        toned("Out/In p50", Tone::Cyan),
        toned("TTFT p50", Tone::Yellow),
        toned("TTFT p95", Tone::Yellow),
    ];
    assert(cells_view(heads@) =~= latency_stats_heads());
    heads
}

/// A row of the latency of each model.
pub open spec fn latency_stats_cells(r: LatencyRow) -> Seq<CellView> {
    seq![
        (name_or(text::optional(r.model), "(unknown)"@), Tone::Plain),
        (text::decimal(r.count as nat), Tone::Plain),
        (text::signed_decimal(r.p50_ms as int), Tone::Plain),
        (text::signed_decimal(r.p95_ms as int), Tone::Plain),
        (text::signed_decimal(r.p99_ms as int), Tone::Plain),
        (name_or(text::optional(r.rate_p50), "—"@), Tone::Plain),
        (name_or(text::optional(r.rate_p95), "—"@), Tone::Plain),
        (number_or(r.input_tokens_p50, "—"@), Tone::Plain),
        (number_or(r.input_tokens_p95, "—"@), Tone::Plain),
        (name_or(text::optional(r.output_input_ratio_p50), "—"@), Tone::Plain),
        (ttft_text(r.ttft_count, r.ttft_p50_ms), Tone::Plain),
        (ttft_text(r.ttft_count, r.ttft_p95_ms), Tone::Plain),
    ]
}

fn render_latency_stats_row(r: &LatencyRow) -> (cells: Vec<Cell>)
    ensures
        cells_view(cells@) == latency_stats_cells(*r),
{
    let cells: Vec<Cell> = vec![
        plain(take_or(&r.model, "(unknown)").as_str()),
        plain(text::render_u64(r.count as u64).as_str()),
        plain(text::render_i64(r.p50_ms).as_str()),
        plain(text::render_i64(r.p95_ms).as_str()),
        plain(text::render_i64(r.p99_ms).as_str()),
        plain(take_or(&r.rate_p50, "—").as_str()),
        plain(take_or(&r.rate_p95, "—").as_str()),
        plain(render_number_or(r.input_tokens_p50, "—").as_str()),
        plain(render_number_or(r.input_tokens_p95, "—").as_str()),
        plain(take_or(&r.output_input_ratio_p50, "—").as_str()),
        plain(render_ttft(r.ttft_count, r.ttft_p50_ms).as_str()),
        plain(render_ttft(r.ttft_count, r.ttft_p95_ms).as_str()),
    ];
    assert(cells_view(cells@) =~= latency_stats_cells(*r));
    cells
}

/// What the latency of each model shows.
pub open spec fn latency_stats_section(rows: Seq<LatencyRow>) -> SectionView {
    if rows.len() == 0 {
        SectionView::Message("No latency data available"@)
    } else {
        SectionView::Table(
            TableView {
                title: "Latency Stats by Model (* = derived, span duration includes network+queue time):"@,
                heads: latency_stats_heads(),
                rows: Seq::new(rows.len(), |i: int| latency_stats_cells(rows[i])),
            },
        )
    }
}

/// Lays out the latency of each model.
pub fn display_latency_stats(rows: &Vec<LatencyRow>) -> (section: Section)
    ensures
        section@ == latency_stats_section(rows@),
{
    if rows.len() == 0 {
        return Section::Message("No latency data available".to_owned());
    }
    let mut laid: Vec<Vec<Cell>> = Vec::new();
    let mut i: usize = 0;
    while i < rows.len()
        invariant
            i <= rows@.len(),
            laid@.len() == i,
            forall|j: int| 0 <= j < i ==> cells_view((#[trigger] laid@[j])@) == latency_stats_cells(rows@[j]),
        decreases rows@.len() - i,
    {
        laid.push(render_latency_stats_row(&rows[i]));
        i = i + 1;
    }
    let t = Table { title: "Latency Stats by Model (* = derived, span duration includes network+queue time):".to_owned(), heads: render_latency_stats_heads(), rows: laid };
    assert(t@.rows =~= Seq::new(rows@.len(), |i: int| latency_stats_cells(rows@[i])));
    Section::Table(t)
}

/// A truncation rate and how it is shown.
pub struct TruncationRow {
    pub rate: TruncationRateByModel,
    pub percent: String,
}

/// The colour of a truncation rate: over five percent is bad, over one percent is doubtful.
pub open spec fn truncation_tone(truncated: int, total: int) -> Tone {
    if total > 0 && truncated * 100 > total * 5 {
        Tone::Red
    } else if total > 0 && truncated * 100 > total {
        Tone::Yellow
    } else {
        Tone::Green
    }
}

fn find_truncation_tone(truncated: usize, total: usize) -> (t: Tone)
    ensures
        t == truncation_tone(truncated as int, total as int),
{
    if total > 0 && truncated as u128 * 100 > total as u128 * 5 {
        Tone::Red
    } else if total > 0 && truncated as u128 * 100 > total as u128 {
        Tone::Yellow
    } else {
        Tone::Green
    }
}

/// No call was cut off.
pub open spec fn none_truncated(rows: Seq<TruncationRow>) -> bool {
    forall|i: int| 0 <= i < rows.len() ==> (#[trigger] rows[i]).rate.truncated == 0
}

fn has_no_truncation(rows: &Vec<TruncationRow>) -> (r: bool)
    ensures
        r == none_truncated(rows@),
{
    let mut i: usize = 0;
    while i < rows.len()
        invariant
            i <= rows@.len(),
            forall|j: int| 0 <= j < i ==> (#[trigger] rows@[j]).rate.truncated == 0,
        decreases rows@.len() - i,
    {
        if rows[i].rate.truncated > 0 {
            return false;
        }
        i = i + 1;
    }
    true
}

/// The heads of the truncation rate of each model.
pub open spec fn truncation_rate_heads() -> Seq<CellView> {
    seq![
        ("Model"@, Tone::Cyan),
            ("Total Calls"@, Tone::Cyan),
            ("Truncated"@, Tone::Cyan),
            ("Rate"@, Tone::Cyan),
    ]
}

fn render_truncation_rate_heads() -> (heads: Vec<Cell>)
    ensures
        cells_view(heads@) == truncation_rate_heads(),
{
    let heads: Vec<Cell> = vec![
        toned("Model", Tone::Cyan),
        toned("Total Calls", Tone::Cyan),
        toned("Truncated", Tone::Cyan),
        toned("Rate", Tone::Cyan),
    ];
    assert(cells_view(heads@) =~= truncation_rate_heads());
    heads
}

/// A row of the truncation rate of each model.
pub open spec fn truncation_rate_cells(r: TruncationRow) -> Seq<CellView> {
    seq![
        (name_or(text::optional(r.rate.model), "(unknown)"@), Tone::Plain),
        (text::decimal(r.rate.total as nat), Tone::Plain),
        (text::decimal(r.rate.truncated as nat), Tone::Plain),
        (r.percent@, truncation_tone(r.rate.truncated as int, r.rate.total as int)),
    ]
}

fn render_truncation_rate_row(r: &TruncationRow) -> (cells: Vec<Cell>)
    ensures
        cells_view(cells@) == truncation_rate_cells(*r),
{
    let cells: Vec<Cell> = vec![
        plain(take_or(&r.rate.model, "(unknown)").as_str()),
        plain(text::render_u64(r.rate.total as u64).as_str()),
        plain(text::render_u64(r.rate.truncated as u64).as_str()),
        toned(r.percent.as_str(), find_truncation_tone(r.rate.truncated, r.rate.total)),
    ];
    assert(cells_view(cells@) =~= truncation_rate_cells(*r));
    cells
}

/// What the truncation rate of each model shows.
pub open spec fn truncation_rate_section(rows: Seq<TruncationRow>) -> SectionView {
    if none_truncated(rows) {
        SectionView::Message("Truncation Rate by Model: no truncations observed"@)
    } else {
        SectionView::Table(
            TableView {
                title: "Truncation Rate by Model (finish_reason = max_tokens/length):"@,
                heads: truncation_rate_heads(),
                rows: Seq::new(rows.len(), |i: int| truncation_rate_cells(rows[i])),
            },
        )
    }
}

/// Lays out the truncation rate of each model.
pub fn display_truncation_rate(rows: &Vec<TruncationRow>) -> (section: Section)
    ensures
        section@ == truncation_rate_section(rows@),
{
    if has_no_truncation(rows) {
        return Section::Message("Truncation Rate by Model: no truncations observed".to_owned());
    }
    let mut laid: Vec<Vec<Cell>> = Vec::new();
    let mut i: usize = 0;
    while i < rows.len()
        invariant
            i <= rows@.len(),
            laid@.len() == i,
            forall|j: int| 0 <= j < i ==> cells_view((#[trigger] laid@[j])@) == truncation_rate_cells(rows@[j]),
        decreases rows@.len() - i,
    {
        laid.push(render_truncation_rate_row(&rows[i]));
        i = i + 1;
    }
    let t = Table { title: "Truncation Rate by Model (finish_reason = max_tokens/length):".to_owned(), heads: render_truncation_rate_heads(), rows: laid };
    assert(t@.rows =~= Seq::new(rows@.len(), |i: int| truncation_rate_cells(rows@[i])));
    Section::Table(t)
}

/// A cache hit rate and how it is shown.
pub struct CacheHitRow {
    pub rate: CacheHitRateByModel,
    pub percent: String,
}

/// The colour of a cache hit rate: a fifth is good, a twentieth is fair.
pub open spec fn hit_tone(read: int, input: int) -> Tone {
    let all = read + input;
    if all > 0 && read * 100 >= all * 20 {
        Tone::Green
    } else if all > 0 && read * 100 >= all * 5 {
        Tone::Yellow
    } else {
        Tone::White
    }
}

fn find_hit_tone(read: u64, input: u64) -> (t: Tone)
    ensures
        t == hit_tone(read as int, input as int),
{
    let all: u128 = read as u128 + input as u128;
    if all > 0 && read as u128 * 100 >= all * 20 {
        Tone::Green
    } else if all > 0 && read as u128 * 100 >= all * 5 {
        Tone::Yellow
    } else {
        Tone::White
    }
}

/// Nothing was read from the cache.
pub open spec fn none_cached(rows: Seq<CacheHitRow>) -> bool {
    forall|i: int| 0 <= i < rows.len() ==> (#[trigger] rows[i]).rate.total_cache_read_tokens == 0
}

fn has_no_cache_read(rows: &Vec<CacheHitRow>) -> (r: bool)
    ensures
        r == none_cached(rows@),
{
    let mut i: usize = 0;
    while i < rows.len()
        invariant
            i <= rows@.len(),
            forall|j: int| 0 <= j < i ==> (#[trigger] rows@[j]).rate.total_cache_read_tokens == 0,
        decreases rows@.len() - i,
    {
        if rows[i].rate.total_cache_read_tokens > 0 {
            return false;
        }
        i = i + 1;
    }
    true
}

/// The heads of the cache hit rate of each model.
pub open spec fn cache_hit_rate_heads() -> Seq<CellView> {
    seq![
        ("Model"@, Tone::Cyan),
            ("Input Tokens"@, Tone::Cyan),
            ("Cache Read"@, Tone::Cyan),
            ("Cache Created"@, Tone::Cyan),
            ("Hit Rate"@, Tone::Cyan),
    ]
}

fn render_cache_hit_rate_heads() -> (heads: Vec<Cell>)
    ensures
        cells_view(heads@) == cache_hit_rate_heads(),
{
    let heads: Vec<Cell> = vec![
        toned("Model", Tone::Cyan),
        toned("Input Tokens", Tone::Cyan),
        toned("Cache Read", Tone::Cyan),
        toned("Cache Created", Tone::Cyan),
        toned("Hit Rate", Tone::Cyan),
    ];
    assert(cells_view(heads@) =~= cache_hit_rate_heads());
    heads
}

/// A row of the cache hit rate of each model.
pub open spec fn cache_hit_rate_cells(r: CacheHitRow) -> Seq<CellView> {
    seq![
        (name_or(text::optional(r.rate.model), "(unknown)"@), Tone::Plain),
        (number_text(r.rate.total_input_tokens), Tone::Plain),
        (number_text(r.rate.total_cache_read_tokens), Tone::Plain),
        (number_text(r.rate.total_cache_creation_tokens), Tone::Plain),
        (r.percent@, hit_tone(r.rate.total_cache_read_tokens as int, r.rate.total_input_tokens as int)),
    ]
}

fn render_cache_hit_rate_row(r: &CacheHitRow) -> (cells: Vec<Cell>)
    ensures
        cells_view(cells@) == cache_hit_rate_cells(*r),
{
    let cells: Vec<Cell> = vec![
        plain(take_or(&r.rate.model, "(unknown)").as_str()),
        plain(layout::format_number(r.rate.total_input_tokens).as_str()),
        plain(layout::format_number(r.rate.total_cache_read_tokens).as_str()),
        plain(layout::format_number(r.rate.total_cache_creation_tokens).as_str()),
        toned(r.percent.as_str(), find_hit_tone(r.rate.total_cache_read_tokens, r.rate.total_input_tokens)),
    ];
    assert(cells_view(cells@) =~= cache_hit_rate_cells(*r));
    cells
}

/// What the cache hit rate of each model shows.
pub open spec fn cache_hit_rate_section(rows: Seq<CacheHitRow>) -> SectionView {
    if none_cached(rows) {
        SectionView::Message("Cache Hit Rate: no cache reads observed"@)
    } else {
        SectionView::Table(
            TableView {
                title: "Cache Hit Rate by Model (cache_read / (cache_read + input)):"@,
                heads: cache_hit_rate_heads(),
                rows: Seq::new(rows.len(), |i: int| cache_hit_rate_cells(rows[i])),
            },
        )
    }
}

/// Lays out the cache hit rate of each model.
pub fn display_cache_hit_rate(rows: &Vec<CacheHitRow>) -> (section: Section)
    ensures
        section@ == cache_hit_rate_section(rows@),
{
    if has_no_cache_read(rows) {
        return Section::Message("Cache Hit Rate: no cache reads observed".to_owned());
    }
    let mut laid: Vec<Vec<Cell>> = Vec::new();
    let mut i: usize = 0;
    while i < rows.len()
        invariant
            i <= rows@.len(),
            laid@.len() == i,
            forall|j: int| 0 <= j < i ==> cells_view((#[trigger] laid@[j])@) == cache_hit_rate_cells(rows@[j]),
        decreases rows@.len() - i,
    {
        laid.push(render_cache_hit_rate_row(&rows[i]));
        i = i + 1;
    }
    let t = Table { title: "Cache Hit Rate by Model (cache_read / (cache_read + input)):".to_owned(), heads: render_cache_hit_rate_heads(), rows: laid };
    assert(t@.rows =~= Seq::new(rows@.len(), |i: int| cache_hit_rate_cells(rows@[i])));
    Section::Table(t)
}

/// The use of a tool, with its success rate and its average duration as they are shown.
pub struct ToolRow {
    pub usage: ToolUsage,
    pub success: String,
    pub average: String,
}

/// The colour of a success rate: under ninety percent is bad, under ninety-nine is doubtful.
pub open spec fn success_tone(successes: int, count: int) -> Tone {
    if count <= 0 || successes * 100 < count * 90 {
        Tone::Red
    } else if successes * 100 < count * 99 {
        Tone::Yellow
    } else {
        Tone::Green
    }
}

fn find_success_tone(successes: usize, count: usize) -> (t: Tone)
    ensures
        t == success_tone(successes as int, count as int),
{
    if count == 0 || (successes as u128) * 100 < (count as u128) * 90 {
        Tone::Red
    } else if (successes as u128) * 100 < (count as u128) * 99 {
        Tone::Yellow
    } else {
        Tone::Green
    }
}

/// The heads of the use of each tool.
pub open spec fn tool_usage_heads() -> Seq<CellView> {
    seq![
        ("Tool"@, Tone::Cyan),
            ("Calls"@, Tone::Cyan),
            ("Success%"@, Tone::Cyan),
            ("Errors"@, Tone::Cyan),
            ("Avg ms"@, Tone::Cyan),
    ]
}

fn render_tool_usage_heads() -> (heads: Vec<Cell>)
    ensures
        cells_view(heads@) == tool_usage_heads(),
{
    let heads: Vec<Cell> = vec![
        toned("Tool", Tone::Cyan),
        toned("Calls", Tone::Cyan),
        toned("Success%", Tone::Cyan),
        toned("Errors", Tone::Cyan),
        toned("Avg ms", Tone::Cyan),
    ];
    assert(cells_view(heads@) =~= tool_usage_heads());
    heads
}

/// A row of the use of each tool.
pub open spec fn tool_usage_cells(r: ToolRow) -> Seq<CellView> {
    seq![
        (r.usage.tool_name@, Tone::Plain),
        (text::decimal(r.usage.count as nat), Tone::Plain),
        (r.success@, success_tone(r.usage.success_count as int, r.usage.count as int)),
        (text::decimal(r.usage.error_count as nat), Tone::Plain),
        (r.average@, Tone::Plain),
    ]
}

fn render_tool_usage_row(r: &ToolRow) -> (cells: Vec<Cell>)
    ensures
        cells_view(cells@) == tool_usage_cells(*r),
{
    let cells: Vec<Cell> = vec![
        plain(r.usage.tool_name.as_str()),
        plain(text::render_u64(r.usage.count as u64).as_str()),
        toned(r.success.as_str(), find_success_tone(r.usage.success_count, r.usage.count)),
        plain(text::render_u64(r.usage.error_count as u64).as_str()),
        plain(r.average.as_str()),
    ];
    assert(cells_view(cells@) =~= tool_usage_cells(*r));
    cells
}

/// What the use of each tool shows.
pub open spec fn tool_usage_section(rows: Seq<ToolRow>) -> SectionView {
    if rows.len() == 0 {
        SectionView::Message("Tool Usage: no tool calls observed"@)
    } else {
        SectionView::Table(
            TableView {
                title: "Tool Usage (success rate = calls without error / total calls):"@,
                heads: tool_usage_heads(),
                rows: Seq::new(rows.len(), |i: int| tool_usage_cells(rows[i])),
            },
        )
    }
}

/// Lays out the use of each tool.
pub fn display_tool_usage(rows: &Vec<ToolRow>) -> (section: Section)
    ensures
        section@ == tool_usage_section(rows@),
{
    if rows.len() == 0 {
        return Section::Message("Tool Usage: no tool calls observed".to_owned());
    }
    let mut laid: Vec<Vec<Cell>> = Vec::new();
    let mut i: usize = 0;
    while i < rows.len()
        invariant
            i <= rows@.len(),
            laid@.len() == i,
            forall|j: int| 0 <= j < i ==> cells_view((#[trigger] laid@[j])@) == tool_usage_cells(rows@[j]),
        decreases rows@.len() - i,
    {
        laid.push(render_tool_usage_row(&rows[i]));
        i = i + 1;
    }
    let t = Table { title: "Tool Usage (success rate = calls without error / total calls):".to_owned(), heads: render_tool_usage_heads(), rows: laid };
    assert(t@.rows =~= Seq::new(rows@.len(), |i: int| tool_usage_cells(rows@[i])));
    Section::Table(t)
}

/// The failed calls of a model with one label.
pub struct ErrorTypeBreakdown {
    pub model: Option<String>,
    pub error_type: String,
    pub bucket: String,
    pub count: usize,
}

/// The heads of the failures by kind.
pub open spec fn error_types_heads() -> Seq<CellView> {
    seq![
        ("Bucket"@, Tone::Red),
            ("Error Type"@, Tone::Cyan),
            ("Model"@, Tone::Cyan),
            ("Count"@, Tone::Yellow),
    ]
}

fn render_error_types_heads() -> (heads: Vec<Cell>)
    ensures
        cells_view(heads@) == error_types_heads(),
{
    let heads: Vec<Cell> = vec![
        toned("Bucket", Tone::Red),
        toned("Error Type", Tone::Cyan),
        toned("Model", Tone::Cyan),
        toned("Count", Tone::Yellow),
    ];
    assert(cells_view(heads@) =~= error_types_heads());
    heads
}

/// A row of the failures by kind.
pub open spec fn error_types_cells(r: ErrorTypeBreakdown) -> Seq<CellView> {
    seq![
        (r.bucket@, Tone::Red),
        (r.error_type@, Tone::Plain),
        (name_or(text::optional(r.model), "(unknown)"@), Tone::Plain),
        (text::decimal(r.count as nat), Tone::Yellow),
    ]
}

fn render_error_types_row(r: &ErrorTypeBreakdown) -> (cells: Vec<Cell>)
    ensures
        cells_view(cells@) == error_types_cells(*r),
{
    let cells: Vec<Cell> = vec![
        toned(r.bucket.as_str(), Tone::Red),
        plain(r.error_type.as_str()),
        plain(take_or(&r.model, "(unknown)").as_str()),
        toned(text::render_u64(r.count as u64).as_str(), Tone::Yellow),
    ];
    assert(cells_view(cells@) =~= error_types_cells(*r));
    cells
}

/// What the failures by kind shows.
pub open spec fn error_types_section(rows: Seq<ErrorTypeBreakdown>) -> SectionView {
    if rows.len() == 0 {
        SectionView::Message("Error Types: no error spans observed"@)
    } else {
        SectionView::Table(
            TableView {
                title: "Error Type Breakdown (sorted by count; raw error_type shown for inspection):"@,
                heads: error_types_heads(),
                rows: Seq::new(rows.len(), |i: int| error_types_cells(rows[i])),
            },
        )
    }
}

/// Lays out the failures by kind.
pub fn display_error_types(rows: &Vec<ErrorTypeBreakdown>) -> (section: Section)
    ensures
        section@ == error_types_section(rows@),
{
    if rows.len() == 0 {
        return Section::Message("Error Types: no error spans observed".to_owned());
    }
    let mut laid: Vec<Vec<Cell>> = Vec::new();
    let mut i: usize = 0;
    while i < rows.len()
        invariant
            i <= rows@.len(),
            laid@.len() == i,
            forall|j: int| 0 <= j < i ==> cells_view((#[trigger] laid@[j])@) == error_types_cells(rows@[j]),
        decreases rows@.len() - i,
    {
        laid.push(render_error_types_row(&rows[i]));
        i = i + 1;
    }
    let t = Table { title: "Error Type Breakdown (sorted by count; raw error_type shown for inspection):".to_owned(), heads: render_error_types_heads(), rows: laid };
    assert(t@.rows =~= Seq::new(rows@.len(), |i: int| error_types_cells(rows@[i])));
    Section::Table(t)
}

/// One of the most expensive calls.
pub struct TopSpanRow {
    pub model: Option<String>,
    pub session_id: Option<String>,
    pub input_tokens: u64,
    pub output_tokens: u64,
    pub cache_read_tokens: u64,
    pub cost: String,
    /// The duration in nanoseconds.
    pub duration: i64,
}

/// The heads of the most expensive calls.
pub open spec fn top_spans_heads() -> Seq<CellView> {
    seq![
        ("#"@, Tone::Cyan),
        ("Model"@, Tone::Cyan),
        ("Session"@, Tone::Cyan),
        ("Input"@, Tone::Cyan),
        ("Output"@, Tone::Cyan),
        ("Cache"@, Tone::Cyan),
        ("Cost"@, Tone::Cyan),
        ("Duration"@, Tone::Cyan),
    ]
}

/// A row of the most expensive calls, with its place among them.
pub open spec fn top_spans_cells(place: nat, r: TopSpanRow) -> Seq<CellView> {
    seq![
        (text::decimal(place), Tone::Plain),
        (name_or(text::optional(r.model), "—"@), Tone::Plain),
        (layout::truncated(name_or(text::optional(r.session_id), "—"@), 24), Tone::Plain),
        (number_text(r.input_tokens), Tone::Plain),
        (number_text(r.output_tokens), Tone::Plain),
        (number_text(r.cache_read_tokens), Tone::Plain),
        (r.cost@, Tone::Plain),
        (millis_text(latency::whole_millis(r.duration as int)), Tone::Plain),
    ]
}

/// What the most expensive calls show.
pub open spec fn top_spans_section(rows: Seq<TopSpanRow>, n: usize) -> SectionView {
    if rows.len() == 0 {
        SectionView::Message("No LLM spans found in range"@)
    } else {
        SectionView::Table(
            TableView {
                title: "Top "@ + text::decimal(n as nat) + " LLM Calls by Cost:"@,
                heads: top_spans_heads(),
                rows: Seq::new(rows.len(), |i: int| top_spans_cells((i + 1) as nat, rows[i])),
            },
        )
    }
}

fn render_top_span(place: u64, r: &TopSpanRow) -> (cells: Vec<Cell>)
    requires
        can_truncate(name_or(text::optional(r.session_id), "—"@), 24),
    ensures
        cells_view(cells@) == top_spans_cells(place as nat, *r),
{
    let session = take_or(&r.session_id, "—");
    let cells: Vec<Cell> = vec![
        plain(text::render_u64(place).as_str()),
        plain(take_or(&r.model, "—").as_str()),
        plain(layout::truncate(session.as_str(), 24).as_str()),
        plain(layout::format_number(r.input_tokens).as_str()),
        plain(layout::format_number(r.output_tokens).as_str()),
        plain(layout::format_number(r.cache_read_tokens).as_str()),
        plain(r.cost.as_str()),
        plain(render_millis(latency::to_millis(r.duration)).as_str()),
    ];
    assert(cells_view(cells@) =~= top_spans_cells(place as nat, *r));
    cells
}

/// Lays out the most expensive calls, of which `n` were asked for.
pub fn display_top_spans(rows: &Vec<TopSpanRow>, n: usize) -> (section: Section)
    requires
        forall|i: int|
            0 <= i < rows@.len() ==> can_truncate(
                name_or(text::optional((#[trigger] rows@[i]).session_id), "—"@),
                24,
            ),
    ensures
        section@ == top_spans_section(rows@, n),
{
    if rows.len() == 0 {
        return Section::Message("No LLM spans found in range".to_owned());
    }
    let mut laid: Vec<Vec<Cell>> = Vec::new();
    let mut i: usize = 0;
    while i < rows.len()
        invariant
            i <= rows@.len(),
            forall|j: int|
                0 <= j < rows@.len() ==> can_truncate(
                    name_or(text::optional((#[trigger] rows@[j]).session_id), "—"@),
                    24,
                ),
            laid@.len() == i,
            forall|j: int|
                0 <= j < i ==> cells_view((#[trigger] laid@[j])@) == top_spans_cells(
                    (j + 1) as nat,
                    rows@[j],
                ),
        decreases rows@.len() - i,
    {
        let place: u64 = i as u64 + 1;
        laid.push(render_top_span(place, &rows[i]));
        i = i + 1;
    }
    let heads: Vec<Cell> = vec![
        toned("#", Tone::Cyan),
        toned("Model", Tone::Cyan),
        toned("Session", Tone::Cyan),
        toned("Input", Tone::Cyan),
        toned("Output", Tone::Cyan),
        toned("Cache", Tone::Cyan),
        toned("Cost", Tone::Cyan),
        toned("Duration", Tone::Cyan),
    ];
    assert(cells_view(heads@) =~= top_spans_heads());
    let mut title = "Top ".to_owned();
    title.append(text::render_u64(n as u64).as_str());
    title.append(" LLM Calls by Cost:");
    let t = Table { title, heads, rows: laid };
    assert(t@.rows =~= Seq::new(rows@.len(), |i: int| top_spans_cells((i + 1) as nat, rows@[i])));
    Section::Table(t)
}

/// How often a setting was asked for. It is absent where none was.
pub struct ParamBucket {
    /// The setting as it is shown.
    pub value: Option<String>,
    pub count: usize,
}

/// What a table of settings shows.
pub open spec fn params_table(title: Seq<char>, head: Seq<char>, rows: Seq<ParamBucket>) -> TableView {
    TableView {
        title,
        heads: seq![(head, Tone::Cyan), ("Calls"@, Tone::Cyan)],
        rows: Seq::new(
            rows.len(),
            |i: int|
                pair(
                    name_or(text::optional(rows[i].value), "not set"@),
                    text::decimal(rows[i].count as nat),
                ),
        ),
    }
}

fn lay_out_params(title: &str, head: &str, rows: &Vec<ParamBucket>) -> (t: Table)
    ensures
        t@ == params_table(title@, head@, rows@),
{
    let mut laid: Vec<Vec<Cell>> = Vec::new();
    let mut i: usize = 0;
    while i < rows.len()
        invariant
            i <= rows@.len(),
            laid@.len() == i,
            forall|j: int|
                0 <= j < i ==> cells_view((#[trigger] laid@[j])@) == pair(
                    name_or(text::optional(rows@[j].value), "not set"@),
                    text::decimal(rows@[j].count as nat),
                ),
        decreases rows@.len() - i,
    {
        let value = take_or(&rows[i].value, "not set");
        laid.push(render_pair(value.as_str(), text::render_u64(rows[i].count as u64).as_str()));
        i = i + 1;
    }
    let heads: Vec<Cell> = vec![toned(head, Tone::Cyan), toned("Calls", Tone::Cyan)];
    assert(cells_view(heads@) =~= seq![(head@, Tone::Cyan), ("Calls"@, Tone::Cyan)]);
    let t = Table { title: title.to_owned(), heads, rows: laid };
    assert(t@.rows =~= params_table(title@, head@, rows@).rows);
    t
}

/// A limit on the output, as it is shown.
pub fn show_max_tokens(limit: Option<i64>) -> (s: Option<String>)
    ensures
        text::optional(s) == match limit {
            Some(n) => Some(number_text(n as u64)),
            None => None,
        },
{
    match limit {
        Some(n) => Some(layout::format_number(#[verifier::truncate] (n as u64))),
        None => None,
    }
}

/// What the settings show: a table for each kind of setting that has any rows.
pub open spec fn params_tables(
    temperatures: Seq<ParamBucket>,
    max_tokens: Seq<ParamBucket>,
) -> Seq<TableView> {
    let first = if temperatures.len() > 0 {
        Seq::<TableView>::empty().push(
            params_table("Temperature Distribution:"@, "Temperature"@, temperatures),
        )
    } else {
        Seq::<TableView>::empty()
    };
    if max_tokens.len() > 0 {
        first.push(params_table("max_tokens Distribution:"@, "max_tokens"@, max_tokens))
    } else {
        first
    }
}

/// What the tables show.
pub open spec fn tables_view(tables: Seq<Table>) -> Seq<TableView> {
    Seq::new(tables.len(), |i: int| tables[i]@)
}

/// Lays out the settings of requests.
pub fn display_request_params(temperatures: &Vec<ParamBucket>, max_tokens: &Vec<ParamBucket>) -> (tables: Vec<
    Table,
>)
    ensures
        tables_view(tables@) == params_tables(temperatures@, max_tokens@),
{
    let mut tables: Vec<Table> = Vec::new();
    if temperatures.len() > 0 {
        tables.push(lay_out_params("Temperature Distribution:", "Temperature", temperatures));
    }
    if max_tokens.len() > 0 {
        tables.push(lay_out_params("max_tokens Distribution:", "max_tokens", max_tokens));
    }
    assert(tables_view(tables@) =~= params_tables(temperatures@, max_tokens@));
    tables
}

/// The number of turns of conversations, with their average as it is shown.
pub struct DepthRow {
    pub total_conversations: usize,
    pub average: String,
    pub p50_turns: i64,
    pub p95_turns: i64,
    pub p99_turns: i64,
}

/// What the depth of conversations shows.
pub open spec fn conv_depth_section(d: DepthRow) -> SectionView {
    if d.total_conversations == 0 {
        SectionView::Message("Conversation Depth: no conversations with conversation_id observed"@)
    } else {
        SectionView::Table(
            TableView {
                title: "Conversation Depth (turns per conversation_id):"@,
                heads: pair_heads(),
                rows: Seq::<Seq<CellView>>::empty().push(
                    pair("Total conversations"@, text::decimal(d.total_conversations as nat)),
                ).push(pair("Avg turns"@, d.average@)).push(
                    pair("p50 turns"@, text::signed_decimal(d.p50_turns as int)),
                ).push(pair("p95 turns"@, text::signed_decimal(d.p95_turns as int))).push(
                    pair("p99 turns"@, text::signed_decimal(d.p99_turns as int)),
                ),
            },
        )
    }
}

/// Lays out the depth of conversations.
pub fn display_conv_depth(d: &DepthRow) -> (section: Section)
    ensures
        section@ == conv_depth_section(*d),
{
    if d.total_conversations == 0 {
        return Section::Message(
            "Conversation Depth: no conversations with conversation_id observed".to_owned(),
        );
    }
    let mut rows = no_rows();
    add_row(
        &mut rows,
        render_pair("Total conversations", text::render_u64(d.total_conversations as u64).as_str()),
    );
    add_row(&mut rows, render_pair("Avg turns", d.average.as_str()));
    add_row(&mut rows, render_pair("p50 turns", text::render_i64(d.p50_turns).as_str()));
    add_row(&mut rows, render_pair("p95 turns", text::render_i64(d.p95_turns).as_str()));
    add_row(&mut rows, render_pair("p99 turns", text::render_i64(d.p99_turns).as_str()));
    Section::Table(
        Table {
            title: "Conversation Depth (turns per conversation_id):".to_owned(),
            heads: render_pair_heads(),
            rows,
        },
    )
}

/// The rows of the pairs that differ.
pub open spec fn drifted_rows(pairs: Seq<ModelDriftPair>) -> Seq<Seq<CellView>>
    decreases pairs.len(),
{
    if pairs.len() == 0 {
        Seq::empty()
    } else {
        also(drifted_rows(pairs.drop_last()), pairs.last().differs, drift_cells(pairs.last()))
    }
}

/// The row of a pair.
pub open spec fn drift_cells(p: ModelDriftPair) -> Seq<CellView> {
    seq![
        (name_or(text::optional(p.request_model), "(unknown)"@), Tone::Plain),
        (name_or(text::optional(p.response_model), "(unknown)"@), Tone::Yellow),
        (text::decimal(p.count as nat), Tone::Plain),
    ]
}

/// The heads of the models that answered for others.
pub open spec fn drift_heads() -> Seq<CellView> {
    seq![
        ("Requested Model"@, Tone::Cyan),
        ("Served Model"@, Tone::Yellow),
        ("Count"@, Tone::Cyan),
    ]
}

/// What the models that answered for others show; pairs that agree are left out.
pub open spec fn model_drift_section(pairs: Seq<ModelDriftPair>) -> SectionView {
    if drifted_rows(pairs).len() == 0 {
        SectionView::Message(
            "Model Drift: no silent rerouting detected (request and response models match)"@,
        )
    } else {
        SectionView::Table(
            TableView {
                title: "Model Drift — provider served a different model than requested:"@,
                heads: drift_heads(),
                rows: drifted_rows(pairs),
            },
        )
    }
}

/// Lays out the models that answered for others.
pub fn display_model_drift(pairs: &Vec<ModelDriftPair>) -> (section: Section)
    ensures
        section@ == model_drift_section(pairs@),
{
    let mut rows = no_rows();
    let mut i: usize = 0;
    assert(pairs@.take(0).len() == 0);
    while i < pairs.len()
        invariant
            i <= pairs@.len(),
            rows_view(rows@) == drifted_rows(pairs@.take(i as int)),
        decreases pairs@.len() - i,
    {
        assert(pairs@.take(i + 1).drop_last() =~= pairs@.take(i as int));
        let p = &pairs[i];
        if p.differs {
            let cells: Vec<Cell> = vec![
                plain(take_or(&p.request_model, "(unknown)").as_str()),
                toned(take_or(&p.response_model, "(unknown)").as_str(), Tone::Yellow),
                plain(text::render_u64(p.count as u64).as_str()),
            ];
            assert(cells_view(cells@) =~= drift_cells(*p));
            add_row(&mut rows, cells);
        }
        i = i + 1;
    }
    assert(pairs@.take(i as int) =~= pairs@);
    assert(rows_view(rows@).len() == rows@.len());
    if rows.len() == 0 {
        return Section::Message(
            "Model Drift: no silent rerouting detected (request and response models match)".to_owned(),
        );
    }
    let heads: Vec<Cell> = vec![
        toned("Requested Model", Tone::Cyan),
        toned("Served Model", Tone::Yellow),
        toned("Count", Tone::Cyan),
    ];
    assert(cells_view(heads@) =~= drift_heads());
    Section::Table(
        Table {
            title: "Model Drift — provider served a different model than requested:".to_owned(),
            heads,
            rows,
        },
    )
}

} // verus!

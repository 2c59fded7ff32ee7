//! What the report on a session promises of its interactions.
use crate::diagnose;
use crate::diagnose::{Findings, Interaction, SpanEntry};
use crate::latency;
use crate::order;
use crate::report;
use crate::sums;
use vstd::prelude::*;

verus! {

/// The interactions are counted one by one.
proof fn lemma_count(ias: Seq<Interaction>, f: spec_fn(Interaction) -> bool, p: spec_fn(Interaction) -> bool)
    requires
        forall|ia: Interaction| #[trigger] f(ia) == p(ia),
    ensures
        diagnose::count(ias, f) == sums::how_many(ias, p),
    decreases ias.len(),
{
    if ias.len() > 0 {
        lemma_count(ias.drop_last(), f, p);
        assert(f(ias.last()) == p(ias.last()));
    }
}

/// The findings count the interactions that failed, those that stalled, those that took longer than thirty
/// seconds, and those that read nothing from the cache and wrote more than fifty thousand tokens to it.
pub proof fn findings_count_the_interactions(f: Findings, ias: Seq<Interaction>)
    requires
        diagnose::finds(f, ias),
    ensures
        f.total == ias.len(),
        f.errors == sums::how_many(ias, |ia: Interaction| ia.is_error),
        f.stalls == sums::how_many(ias, |ia: Interaction| ia.is_stall),
        f.slow_count == sums::how_many(ias, |ia: Interaction| ia.duration_ms > 30_000),
        f.cold_count == sums::how_many(
            ias,
            |ia: Interaction| (ia.cache_read is None || ia.cache_read == Some(0u64)) && ia.cache_creation is Some
                && ia.cache_creation->0 > 50_000,
        ),
        f.total_output == sums::sum_by(
            ias,
            |ia: Interaction| match ia.output_tokens {
                Some(n) => n as int,
                None => 0int,
            },
        ),
        f.total_dur_ms == sums::sum_by(ias, |ia: Interaction| ia.duration_ms as int),
{
    lemma_count(ias, diagnose::is_failed(), |ia: Interaction| ia.is_error);
    lemma_count(ias, diagnose::is_stalled(), |ia: Interaction| ia.is_stall);
    lemma_count(ias, diagnose::is_slow(), |ia: Interaction| ia.duration_ms > 30_000);
    lemma_count(
        ias,
        diagnose::is_cold(),
        |ia: Interaction| (ia.cache_read is None || ia.cache_read == Some(0u64)) && ia.cache_creation is Some
            && ia.cache_creation->0 > 50_000,
    );
    sums::lemma_agreeing_sums(
        ias,
        diagnose::output_of(),
        |ia: Interaction| match ia.output_tokens {
            Some(n) => n as int,
            None => 0int,
        },
    );
    lemma_total(ias);
}

/// The durations add up one by one.
proof fn lemma_total(ias: Seq<Interaction>)
    ensures
        latency::total(diagnose::durations(ias)) == sums::sum_by(ias, |ia: Interaction| ia.duration_ms as int),
    decreases ias.len(),
{
    if ias.len() > 0 {
        lemma_total(ias.drop_last());
        assert(diagnose::durations(ias).drop_last() =~= diagnose::durations(ias.drop_last()));
    }
}

/// Fewer than nineteen in twenty turns, or as many, are faster than the 95th percentile, and more than that
/// are no slower; no turn is slower than the slowest, which is one of them.
pub proof fn slow_turns_are_found(f: Findings, ias: Seq<Interaction>)
    requires
        diagnose::finds(f, ias),
        ias.len() > 0,
    ensures
        100 * sums::how_many(ias, |ia: Interaction| ia.duration_ms < f.p95_ms) <= 95 * ias.len(),
        100 * sums::how_many(ias, |ia: Interaction| ia.duration_ms <= f.p95_ms) > 95 * ias.len(),
        forall|i: int| 0 <= i < ias.len() ==> (#[trigger] ias[i]).duration_ms <= f.slowest_ms,
        exists|i: int| 0 <= i < ias.len() && (#[trigger] ias[i]).duration_ms == f.slowest_ms,
{
    let d = diagnose::durations(ias);
    let n = ias.len() as int;
    let sorted = order::ascending(d);
    let at = n * 95 / 100;
    let v = f.p95_ms;
    let below = |x: i64| x < v;
    let upto = |x: i64| x <= v;
    order::lemma_ascending(d);
    sums::lemma_sum_by_same_items(sorted, d, sums::one_where(below));
    sums::lemma_sum_by_same_items(sorted, d, sums::one_where(upto));
    sums::lemma_how_many(sorted, below, at);
    sums::lemma_how_many(sorted, upto, at + 1);
    assert forall|j: int| at <= j < n implies !below(#[trigger] sorted[j]) by {
        if j > at {
            assert(sorted[at] <= sorted[j]);
        }
    }
    assert forall|j: int| 0 <= j < at + 1 implies upto(#[trigger] sorted[j]) by {
        if j < at {
            assert(sorted[j] <= sorted[at]);
        }
    }
    lemma_durations(ias, below, |ia: Interaction| ia.duration_ms < v);
    lemma_durations(ias, upto, |ia: Interaction| ia.duration_ms <= v);
    assert forall|i: int| 0 <= i < ias.len() implies (#[trigger] ias[i]).duration_ms <= f.slowest_ms by {
        assert(d[i] == ias[i].duration_ms);
        assert(d.contains(d[i]));
        assert(sorted.contains(d[i]));
        let j = sorted.index_of(d[i]);
        if j < n - 1 {
            assert(sorted[j] <= sorted[n - 1]);
        }
    }
    assert(sorted.contains(sorted[n - 1]));
    assert(d.contains(f.slowest_ms));
    let i = d.index_of(f.slowest_ms);
    assert(ias[i].duration_ms == f.slowest_ms);
}

/// Durations and interactions are counted alike.
proof fn lemma_durations(ias: Seq<Interaction>, p: spec_fn(i64) -> bool, q: spec_fn(Interaction) -> bool)
    requires
        forall|ia: Interaction| #[trigger] q(ia) == p(ia.duration_ms),
    ensures
        sums::how_many(diagnose::durations(ias), p) == sums::how_many(ias, q),
    decreases ias.len(),
{
    if ias.len() > 0 {
        lemma_durations(ias.drop_last(), p, q);
        assert(diagnose::durations(ias).drop_last() =~= diagnose::durations(ias.drop_last()));
        assert(q(ias.last()) == p(ias.last().duration_ms));
    }
}

/// An interaction is cold where it reads nothing from the cache and writes more than fifty thousand tokens to
/// it, hot where it reads at least four fifths of its prompt, and warm where it reads less, but something.
pub proof fn cache_states_are_told_apart(read: u64, create: u64, input: u64)
    ensures
        read == 0 && create > 50_000 <==> diagnose::cache_state(read as int, create as int, input as int) == " COLD"@,
        read > 0 && 5 * read >= 4 * (read + create + input) <==> diagnose::cache_state(
            read as int,
            create as int,
            input as int,
        ) == "  HOT"@,
        read > 0 && 5 * read < 4 * (read + create + input) <==> diagnose::cache_state(
            read as int,
            create as int,
            input as int,
        ) == " WARM"@,
        read == 0 && create <= 50_000 <==> diagnose::cache_state(read as int, create as int, input as int)
            == "  —  "@,
{
    reveal_strlit(" COLD");
    reveal_strlit("  HOT");
    reveal_strlit(" WARM");
    reveal_strlit("  —  ");
    assert(" COLD"@[1] == 'C' && "  HOT"@[1] == ' ' && " WARM"@[1] == 'W' && "  —  "@[1] == ' ');
    assert("  HOT"@[2] == 'H' && "  —  "@[2] == '—');
    let all = read + create + input;
    if all > 0 {
        assert((read as int) * 100 / all >= 80 <==> 100 * read >= 80 * all) by (nonlinear_arith)
            requires
                all > 0,
        ;
    }
}

/// The timeout that is suggested for a stall leaves two hundred seconds more than it lasted, in whole seconds,
/// and is five hundred seconds at least.
pub proof fn timeouts_are_long_enough(longest_ms: i64)
    requires
        0 <= longest_ms,
    ensures
        report::suggested_timeout(longest_ms as int) >= 500,
        report::suggested_timeout(longest_ms as int) * 1000 > longest_ms + 199_000,
        report::suggested_timeout(longest_ms as int) == 500 || report::suggested_timeout(longest_ms as int) * 1000
            <= longest_ms + 200_000,
{
}

/// Traces are put in the order of their start, each of them once.
pub proof fn traces_are_ordered_by_start(starts: Seq<i64>, order: Seq<usize>, j: int, k: int)
    requires
        starts.len() <= usize::MAX,
        order::sorts(diagnose::start_ranks(starts), order),
        0 <= j < k < order.len(),
    ensures
        order.len() == starts.len(),
        order.no_duplicates(),
        starts[order[j] as int] < starts[order[k] as int] || (starts[order[j] as int] == starts[order[k] as int]
            && order[j] < order[k]),
{
    order::sorting_is_a_rearrangement(diagnose::start_ranks(starts), order);
    assert(order::precedes(diagnose::start_ranks(starts), order[j] as int, order[k] as int));
}

/// A span reports a model call exactly where the key of one of its attributes begins with `gen_ai.`, and is a
/// root of such a call exactly where it has no parent besides.
pub proof fn model_calls_are_told_by_their_attributes(span: SpanEntry, i: int, rest: Seq<char>)
    ensures
        0 <= i < span.attributes@.len() && span.attributes@[i].0@ == "gen_ai."@ + rest ==> diagnose::is_genai(span),
        diagnose::is_genai(span) ==> exists|k: int, key: Seq<char>|
            0 <= k < span.attributes@.len() && (#[trigger] span.attributes@[k]).0@ == #[trigger] ("gen_ai."@ + key),
        diagnose::is_genai_root(span) <==> diagnose::is_genai(span) && span.parent_span_id is None,
{
    let prefix = "gen_ai."@;
    if 0 <= i < span.attributes@.len() && span.attributes@[i].0@ == prefix + rest {
        assert((prefix + rest).subrange(0, prefix.len() as int) =~= prefix);
        assert(prefix.is_prefix_of(span.attributes@[i].0@));
    }
    if diagnose::is_genai(span) {
        let k = choose|k: int| 0 <= k < span.attributes@.len() && prefix.is_prefix_of((#[trigger] span.attributes@[k]).0@);
        let name = span.attributes@[k].0@;
        let key = name.skip(prefix.len() as int);
        assert(name =~= prefix + key);
    }
}

} // verus!

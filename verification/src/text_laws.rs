//! What texts promise: numbers are read back as they were written, columns keep their width, schedules
//! have their fields, and attributes are found by their keys.
use crate::capability;
use crate::config;
use crate::config::{Environment, NumberFault, StorageConfig};
use crate::counter;
use crate::counter::{CounterRow, SeriesLast};
use crate::group;
use crate::group::Key;
use crate::layout;
use crate::parse;
use crate::text;
use vstd::prelude::*;

verus! {

/// The digits of a number name it.
proof fn lemma_digits(n: nat)
    ensures
        parse::digits_value(text::decimal(n)) == Some(n),
        text::decimal(n).len() > 0,
        '0' <= text::decimal(n)[0] <= '9',
    decreases n,
{
    let s = text::decimal(n);
    if n < 10 {
        assert(s.len() == 1);
        assert(parse::digit_value(s[0]) == Some(n));
    } else {
        lemma_digits(n / 10);
        let prior = text::decimal(n / 10);
        assert(s.drop_last() =~= prior);
        assert(s.last() == text::digit(n % 10));
        assert(parse::digit_value(s.last()) == Some(n % 10));
        assert(s[0] == prior[0]);
        assert(n / 10 * 10 + n % 10 == n);
    }
}

/// A number is read back as it was written, with its sign.
pub proof fn numbers_are_read_back(n: int)
    ensures
        parse::signed_value(text::signed_decimal(n)) == Some(n),
        n >= 0 ==> parse::unsigned_value(text::decimal(n as nat)) == Some(n as nat),
        i64::MIN <= n <= i64::MAX ==> parse::i64_value(text::signed_decimal(n)) == Some(n as i64),
        0 <= n <= u64::MAX ==> parse::u64_value(text::decimal(n as nat)) == Some(n as u64),
{
    if n >= 0 {
        lemma_digits(n as nat);
    } else {
        lemma_digits((-n) as nat);
        let s = text::signed_decimal(n);
        assert(s[0] == '-');
        assert(s.skip(1) =~= text::decimal((-n) as nat));
    }
}

/// A text in a column is as wide as the column, or as itself where it is wider, and stands at its end
/// behind blanks or at its start before them.
pub proof fn columns_keep_their_width(s: Seq<char>, width: int, i: int)
    requires
        width >= 0,
    ensures
        layout::right(s, width).len() == if s.len() > width {
            s.len() as int
        } else {
            width
        },
        layout::left(s, width).len() == layout::right(s, width).len(),
        layout::right(s, width).skip(layout::right(s, width).len() - s.len()) == s,
        layout::left(s, width).take(s.len() as int) == s,
        0 <= i < width - s.len() ==> layout::right(s, width)[i] == ' ' && layout::left(s, width)[s.len() + i] == ' ',
{
    assert(layout::right(s, width).skip(layout::right(s, width).len() - s.len()) =~= s);
    assert(layout::left(s, width).take(s.len() as int) =~= s);
}

/// A duration from a minute on shows its whole seconds as minutes and two digits of seconds; a shorter
/// one shows seconds with one decimal.
pub proof fn durations_show_minutes_and_seconds(ms: int)
    ensures
        ms >= 60_000 ==> exists|m: int, s: int|
            0 <= s < 60 && 60 * m + s == ms / 1000 && layout::duration_text(ms) == text::decimal(m as nat) + "m"@
                + #[trigger] padded(m, s) + "s"@,
        0 <= ms < 60_000 ==> layout::duration_text(ms) == layout::one_decimal(layout::tenths(ms as nat, 1_000)) + "s"@,
{
    if ms >= 60_000 {
        let m = ms / 60_000;
        let s = (ms % 60_000) / 1000;
        assert(60 * m + s == ms / 1000);
        reveal_strlit("0");
        assert(padded(m, s) =~= layout::two_digits(s as nat)) by {
            reveal_with_fuel(text::decimal, 3);
        }
        assert(layout::duration_text(ms) == text::decimal(m as nat) + "m"@ + padded(m, s) + "s"@);
    }
}

/// The seconds beside some minutes, in two digits.
pub open spec fn padded(minutes: int, seconds: int) -> Seq<char> {
    seq![text::digit((seconds / 10) as nat), text::digit((seconds % 10) as nat)]
}

/// Tokens are shown in millions from a million on, in thousands from a thousand on, and else one by one.
pub proof fn large_counts_have_a_unit(t: nat)
    ensures
        t >= 1_000_000 ==> layout::tokens_text(t) == layout::one_decimal(layout::tenths(t, 1_000_000)) + seq!['M'],
        1_000 <= t < 1_000_000 ==> layout::tokens_text(t) == layout::one_decimal(layout::tenths(t, 1_000)) + seq!['K'],
        t < 1_000 ==> parse::unsigned_value(layout::tokens_text(t)) == Some(t),
{
    reveal_strlit("M");
    reveal_strlit("K");
    assert("M"@ =~= seq!['M']);
    assert("K"@ =~= seq!['K']);
    lemma_digits(t);
}

/// A word behind a text and a blank is one more word.
proof fn lemma_word_behind(s: Seq<char>)
    ensures
        config::words(s.push(' ').push('*')) == config::words(s) + 1,
{
    reveal_with_fuel(config::words, 3);
    let a = s.push(' ');
    let b = a.push('*');
    assert(b.drop_last() =~= a);
    assert(a.drop_last() =~= s);
    assert(b.last() == '*' && a.last() == ' ');
    assert(b[b.len() - 2] == ' ');
}

/// A word before a blank and a text is one more word.
proof fn lemma_word_before(s: Seq<char>)
    ensures
        config::words(seq!['0', ' '] + s) == config::words(s) + 1,
    decreases s.len(),
{
    let head = seq!['0', ' '];
    let all = head + s;
    if s.len() == 0 {
        assert(all =~= head);
        reveal_with_fuel(config::words, 3);
        assert(head.drop_last() =~= seq!['0']);
        assert(seq!['0'].drop_last() =~= Seq::<char>::empty());
    } else {
        lemma_word_before(s.drop_last());
        assert(all.drop_last() =~= head + s.drop_last());
        assert(all.last() == s.last());
        if s.len() == 1 {
            assert(all[all.len() - 2] == ' ');
        } else {
            assert(all[all.len() - 2] == s[s.len() - 2]);
        }
    }
}

/// A schedule of five to seven fields has seven when it is read: it runs at second zero where it says no
/// second, and in every year where it says no year. Any other number of fields is none.
pub proof fn schedules_have_seven_fields(schedule: Seq<char>)
    ensures
        config::seven_fields(schedule) is Some <==> 5 <= config::words(schedule) <= 7,
        config::seven_fields(schedule) matches Some(e) ==> config::words(e) == 7,
        config::words(schedule) == 7 ==> config::seven_fields(schedule) == Some(schedule),
        config::words(schedule) == 6 ==> config::seven_fields(schedule) == Some(schedule + seq![' ', '*']),
        config::words(schedule) == 5 ==> config::seven_fields(schedule) == Some(
            seq!['0', ' '] + schedule + seq![' ', '*'],
        ),
{
    reveal_strlit("0 ");
    reveal_strlit(" *");
    assert("0 "@ =~= seq!['0', ' ']);
    assert(" *"@ =~= seq![' ', '*']);
    lemma_word_behind(schedule);
    lemma_word_before(schedule);
    lemma_word_behind(seq!['0', ' '] + schedule);
    assert(schedule + seq![' ', '*'] =~= schedule.push(' ').push('*'));
    assert(seq!['0', ' '] + schedule + seq![' ', '*'] =~= (seq!['0', ' '] + schedule).push(' ').push('*'));
}

/// An environment without a setting leaves the setting of the configuration, and one with it replaces it;
/// the size of a batch cannot be replaced.
pub proof fn the_environment_replaces_what_it_gives(c: StorageConfig, base: StorageConfig, env: Environment)
    requires
        config::applies(c, base, env),
    ensures
        env.data_dir is None ==> c.data_dir@ == base.data_dir@,
        env.data_dir matches Some(d) ==> c.data_dir@ == vstd::utf8::encode_utf8(d@),
        env.retention_days is None ==> c.retention_days == base.retention_days,
        env.purge_schedule is None ==> c.purge_schedule@ == base.purge_schedule@,
        env.purge_schedule matches Some(s) ==> c.purge_schedule@ == s@,
        env.auto_purge_enabled is None ==> c.auto_purge_enabled == base.auto_purge_enabled,
        env.auto_purge_enabled matches Some(t) ==> (c.auto_purge_enabled <==> t@ == "true"@) && (!c.auto_purge_enabled
            <==> t@ == "false"@),
        c.purge_batch_size == base.purge_batch_size,
{
    reveal_strlit("true");
    reveal_strlit("false");
    assert("true"@.len() == 4 && "false"@.len() == 5);
}

/// An attribute is the first of its key, and there is none only where no attribute has the key.
pub proof fn attributes_are_found_by_their_key(attributes: Seq<(String, String)>, key: Seq<char>)
    ensures
        capability::attribute(attributes, key) is None <==> forall|i: int|
            0 <= i < attributes.len() ==> (#[trigger] attributes[i]).0@ != key,
        capability::attribute(attributes, key) matches Some(v) ==> exists|i: int|
            0 <= i < attributes.len() && (#[trigger] attributes[i]).0@ == key && attributes[i].1@ == v && forall|j: int|
                0 <= j < i ==> (#[trigger] attributes[j]).0@ != key,
    decreases attributes.len(),
{
    if attributes.len() > 0 {
        let rest = attributes.drop_first();
        attributes_are_found_by_their_key(rest, key);
        assert forall|i: int| 0 <= i < rest.len() implies #[trigger] rest[i] == attributes[i + 1] by {}
        if attributes[0].0@ == key {
            assert(attributes[0].1@ == capability::attribute(attributes, key)->0);
        } else if capability::attribute(attributes, key) is None {
            assert forall|i: int| 0 <= i < attributes.len() implies (#[trigger] attributes[i]).0@ != key by {
                if i > 0 {
                    assert(rest[i - 1].0@ != key);
                }
            }
        } else {
            let v = capability::attribute(attributes, key)->0;
            let i = choose|i: int|
                0 <= i < rest.len() && (#[trigger] rest[i]).0@ == key && rest[i].1@ == v && forall|j: int|
                    0 <= j < i ==> (#[trigger] rest[j]).0@ != key;
            assert(attributes[i + 1].0@ == key);
            assert forall|j: int| 0 <= j < i + 1 implies (#[trigger] attributes[j]).0@ != key by {
                if j > 0 {
                    assert(rest[j - 1].0@ != key);
                }
            }
        }
    }
}

/// The value is that of the first key that an attribute has.
pub proof fn earlier_keys_are_preferred(attributes: Seq<(String, String)>, keys: Seq<String>, k: int)
    requires
        0 <= k < keys.len(),
        forall|j: int| 0 <= j < k ==> capability::attribute(attributes, (#[trigger] keys[j])@) is None,
        capability::attribute(attributes, keys[k]@) is Some,
    ensures
        capability::first_attribute(attributes, keys) == capability::attribute(attributes, keys[k]@),
    decreases k,
{
    if k > 0 {
        let rest = keys.drop_first();
        assert(capability::attribute(attributes, keys[0]@) is None);
        assert forall|j: int| 0 <= j < k - 1 implies capability::attribute(attributes, (#[trigger] rest[j])@) is None by {
            assert(rest[j] == keys[j + 1]);
        }
        assert(rest[k - 1] == keys[k]);
        earlier_keys_are_preferred(attributes, rest, k - 1);
    }
}

/// The last value of a series is that of its latest row, and the largest of the rows of that time; a row
/// without a value has zero.
pub proof fn last_values_are_of_the_latest_rows(series: Seq<SeriesLast>, rows: Seq<CounterRow>, g: int, i: int)
    requires
        counter::holds_last_values(series, rows),
        0 <= g < series.len(),
        0 <= i < rows.len(),
        rows[i].labels.id() == series[g].labels.id(),
    ensures
        rows[i].timestamp <= series[g].last.timestamp,
        rows[i].timestamp == series[g].last.timestamp ==> value(rows[i]) <= series[g].last.value,
        exists|j: int|
            0 <= j < rows.len() && (#[trigger] rows[j]).labels.id() == series[g].labels.id() && rows[j].timestamp
                == series[g].last.timestamp && value(rows[j]) == series[g].last.value,
{
    let ids = counter::series_ids(rows);
    let samples = counter::samples(rows);
    let id = series[g].labels.id();
    let own = group::gather(ids, samples, id);
    assert(counter::is_latest(own, series[g].last));
    assert(ids[i] == id);
    group::lemma_gathered_into(ids, samples, i);
    let at = own.index_of(samples[i]);
    assert(counter::superseded(own[at], series[g].last));
    let last = own.index_of(series[g].last);
    let j = group::lemma_gathered_from(ids, samples, id, last);
    assert(rows[j].labels.id() == ids[j]);
}

/// The value of a row.
pub open spec fn value(row: CounterRow) -> int {
    match row.value {
        Some(v) => v as int,
        None => 0,
    }
}

/// One more digit makes a number ten times as large, and larger by the digit.
proof fn lemma_one_more_digit(s: Seq<char>, so_far: nat, n: nat, d: nat, c: char)
    requires
        so_far <= u32::MAX,
        config::read_digits(s, so_far) == Ok::<u32, NumberFault>(n as u32),
        n <= u32::MAX,
        parse::digit_value(c) == Some(d),
        n * 10 + d <= u32::MAX,
    ensures
        config::read_digits(s.push(c), so_far) == Ok::<u32, NumberFault>((n * 10 + d) as u32),
    decreases s.len(),
{
    reveal_with_fuel(config::read_digits, 2);
    let more = s.push(c);
    if s.len() == 0 {
        assert(more.skip(1).len() == 0);
    } else {
        assert(more[0] == s[0]);
        assert(more.skip(1) =~= s.skip(1).push(c));
        let e = parse::digit_value(s[0])->0;
        lemma_one_more_digit(s.skip(1), so_far * 10 + e, n, d, c);
    }
}

/// The digits of a number of days are read as that number.
proof fn lemma_days(n: nat)
    requires
        n <= u32::MAX,
    ensures
        config::read_digits(text::decimal(n), 0) == Ok::<u32, NumberFault>(n as u32),
    decreases n,
{
    let s = text::decimal(n);
    if n < 10 {
        reveal_with_fuel(config::read_digits, 2);
        assert(parse::digit_value(s[0]) == Some(n));
        assert(s.skip(1).len() == 0);
    } else {
        lemma_days(n / 10);
        assert(parse::digit_value(text::digit(n % 10)) == Some(n % 10));
        lemma_one_more_digit(text::decimal(n / 10), 0, n / 10, n % 10, text::digit(n % 10));
        assert(s =~= text::decimal(n / 10).push(text::digit(n % 10)));
    }
}

/// A number of days is read back as it was written, with or without a plus sign; a text without digits is
/// no number.
pub proof fn days_are_read_back(n: nat)
    requires
        n <= u32::MAX,
    ensures
        config::days_value(text::decimal(n)) == Ok::<u32, NumberFault>(n as u32),
        config::days_value(seq!['+'] + text::decimal(n)) == Ok::<u32, NumberFault>(n as u32),
        config::days_value(Seq::empty()) == Err::<u32, NumberFault>(NumberFault::Empty),
        config::days_value(seq!['-'] + text::decimal(n)) == Err::<u32, NumberFault>(NumberFault::InvalidDigit),
{
    lemma_days(n);
    lemma_digits(n);
    let plus = seq!['+'] + text::decimal(n);
    assert(plus[0] == '+' && plus.skip(1) =~= text::decimal(n));
    let minus = seq!['-'] + text::decimal(n);
    assert(minus[0] == '-');
}

} // verus!

//! Text for people: abbreviated counts, durations, grouped digits, padding and shortening.
use crate::group;
use crate::text;
use vstd::prelude::*;

verus! {

/// `a / b` rounded to the nearest whole number, to the even one from halfway.
pub open spec fn half_even(a: nat, b: nat) -> nat {
    let q = a / b;
    let r = a % b;
    if 2 * r > b || (2 * r == b && q % 2 == 1) {
        q + 1
    } else {
        q
    }
}

/// Two to the 52nd power: the smallest significand of a double-precision number.
pub const SIGNIFICAND_MIN: u128 = 0x10_0000_0000_0000;

/// Two to the 53rd power: the bound of the significands of double-precision numbers.
pub const SIGNIFICAND_END: u128 = 0x20_0000_0000_0000;

/// How far `a` falls short of `b`.
pub open spec fn shortfall(a: int, b: int) -> nat {
    if a < b {
        (b - a) as nat
    } else {
        0
    }
}

/// `n` as the nearest double-precision number, where the last place is worth at least `place`.
pub open spec fn nearest_double(n: nat, place: nat) -> nat
    decreases shortfall(SIGNIFICAND_END * place, (n + 1) as int),
{
    if place == 0 || n < SIGNIFICAND_END * place {
        half_even(n, place) * place
    } else {
        nearest_double(n, 2 * place)
    }
}

/// Doubles `n` and the power `p` until `n / d` fills a significand.
pub open spec fn scaled(n: nat, p: nat, d: nat) -> (nat, nat)
    decreases shortfall(n as int, SIGNIFICAND_MIN * d),
{
    if n == 0 || n >= SIGNIFICAND_MIN * d {
        (n, p)
    } else {
        scaled(2 * n, 2 * p, d)
    }
}

/// The number of tenths that `n / d` shows with one decimal, when the division is made and rounded in
/// double precision, and the decimal is rounded to the nearest, to the even one from halfway. The
/// quotient lies below two to the 54th power.
pub open spec fn tenths(n: nat, d: nat) -> nat {
    let a = nearest_double(n, 1);
    if a >= SIGNIFICAND_END * d {
        10 * (2 * half_even(a, 2 * d))
    } else {
        let (m, p) = scaled(a, 1, d);
        half_even(10 * half_even(m, d), p)
    }
}

fn round_half_even(a: u128, b: u128) -> (q: u128)
    requires
        0 < b <= 0xffff_ffff_ffff_ffff_ffff,
        a <= 0xffff_ffff_ffff_ffff_ffff_ffff,
    ensures
        q == half_even(a as nat, b as nat),
        q <= a / b + 1,
{
    let q: u128 = a / b;
    let r: u128 = a % b;
    assert(q <= a) by (nonlinear_arith)
        requires
            q == a / b,
            b > 0,
    ;
    assert(r < b) by (nonlinear_arith)
        requires
            r == a % b,
            b > 0,
    ;
    if 2 * r > b || (2 * r == b && q % 2 == 1) {
        q + 1
    } else {
        q
    }
}

/// The number of tenths that `n / d` shows with one decimal.
fn count_tenths(n: u64, d: u64) -> (t: u128)
    requires
        1_000 <= d <= 1_000_000,
        n <= 2 * SIGNIFICAND_END * d,
    ensures
        t == tenths(n as nat, d as nat),
        t <= 0xffff_ffff_ffff_ffff,
{
    let wide: u128 = n as u128;
    let mut place: u128 = 1;
    while wide >= SIGNIFICAND_END * place
        invariant
            wide == n,
            1 <= place <= 0x1000,
            wide < SIGNIFICAND_END * 0x800,
            nearest_double(n as nat, 1) == nearest_double(n as nat, place as nat),
        decreases 0x1000 - place,
    {
        place = 2 * place;
    }
    let whole: u128 = round_half_even(wide, place);
    proof {
        assert(whole * place <= wide + place && whole * place <= (wide / place + 1) * place) by (nonlinear_arith)
            requires
                whole <= wide / place + 1,
                place > 0,
        ;
        assert(wide + place <= 0x1_0000_0000_0000_0000 + 0x1000);
    }
    let a: u128 = whole * place;
    assert(a == nearest_double(n as nat, 1));
    let wide_d: u128 = d as u128;
    assert(SIGNIFICAND_END * wide_d <= 0x20_0000_0000_0000 * 1_000_000) by (nonlinear_arith)
        requires
            wide_d <= 1_000_000,
            SIGNIFICAND_END == 0x20_0000_0000_0000,
    ;
    if a >= SIGNIFICAND_END * wide_d {
        let half: u128 = round_half_even(a, 2 * wide_d);
        proof {
            vstd::arithmetic::div_mod::lemma_div_is_ordered_by_denominator(
                a as int,
                2_000,
                2 * wide_d as int,
            );
        }
        return 10 * (2 * half);
    }
    let mut m: u128 = a;
    let mut p: u128 = 1;
    assert(SIGNIFICAND_MIN * wide_d <= 0x10_0000_0000_0000 * 1_000_000) by (nonlinear_arith)
        requires
            wide_d <= 1_000_000,
            SIGNIFICAND_MIN == 0x10_0000_0000_0000,
    ;
    let filled: u128 = SIGNIFICAND_MIN * wide_d;
    if a > 0 {
        while m < filled
            invariant
                m > 0,
                p > 0,
                filled == SIGNIFICAND_MIN * wide_d,
                filled <= 0x10_0000_0000_0000 * 1_000_000,
                m < 2 * filled,
                p <= m,
                scaled(a as nat, 1, wide_d as nat) == scaled(m as nat, p as nat, wide_d as nat),
            decreases shortfall(m as int, filled as int),
        {
            m = 2 * m;
            p = 2 * p;
        }
    }
    let significand: u128 = round_half_even(m, wide_d);
    proof {
        assert(significand <= 0x20_0000_0000_0000 + 1) by (nonlinear_arith)
            requires
                significand <= m / wide_d + 1,
                m < 2 * (0x10_0000_0000_0000 * wide_d),
                wide_d > 0,
        ;
    }
    let t: u128 = round_half_even(10 * significand, p);
    assert((10 * significand) as u128 / p <= 10 * significand) by (nonlinear_arith)
        requires
            p > 0,
    ;
    t
}

/// A number of tenths as text with one decimal.
pub open spec fn one_decimal(t: nat) -> Seq<char> {
    text::decimal(t / 10) + "."@ + text::decimal(t % 10)
}

fn render_tenths(t: u128) -> (s: String)
    requires
        t <= 0xffff_ffff_ffff_ffff,
    ensures
        s@ == one_decimal(t as nat),
{
    let mut s = text::render_u64((t / 10) as u64);
    s.append(".");
    s.append(text::render_u64((t % 10) as u64).as_str());
    s
}

/// A token count, in thousands or millions with one decimal where it is large.
pub open spec fn tokens_text(t: nat) -> Seq<char> {
    if t >= 1_000_000 {
        one_decimal(tenths(t, 1_000_000)) + "M"@
    } else if t >= 1_000 {
        one_decimal(tenths(t, 1_000)) + "K"@
    } else {
        text::decimal(t)
    }
}

/// A token count, in thousands or millions with one decimal where it is large.
pub fn format_tokens(t: u64) -> (s: String)
    ensures
        s@ == tokens_text(t as nat),
{
    if t >= 1_000_000 {
        let mut s = render_tenths(count_tenths(t, 1_000_000));
        s.append("M");
        s
    } else if t >= 1_000 {
        let mut s = render_tenths(count_tenths(t, 1_000));
        s.append("K");
        s
    } else {
        text::render_u64(t)
    }
}

/// Two digits.
pub open spec fn two_digits(n: nat) -> Seq<char> {
    if n < 10 {
        "0"@ + text::decimal(n)
    } else {
        text::decimal(n)
    }
}

/// A duration: minutes and seconds from one minute on, else seconds with one decimal.
pub open spec fn duration_text(ms: int) -> Seq<char> {
    if ms >= 60_000 {
        text::decimal((ms / 60_000) as nat) + "m"@ + two_digits(((ms % 60_000) / 1000) as nat) + "s"@
    } else if ms >= 0 {
        one_decimal(tenths(ms as nat, 1_000)) + "s"@
    } else {
        "-"@ + one_decimal(tenths((-ms) as nat, 1_000)) + "s"@
    }
}

/// A duration in milliseconds, for people.
pub fn format_duration(ms: i64) -> (s: String)
    ensures
        s@ == duration_text(ms as int),
{
    if ms >= 60_000 {
        let n: u64 = ms as u64;
        let mut s = text::render_u64(n / 60_000);
        s.append("m");
        let seconds: u64 = (n % 60_000) / 1000;
        if seconds < 10 {
            let mut padded = "0".to_owned();
            padded.append(text::render_u64(seconds).as_str());
            s.append(padded.as_str());
        } else {
            s.append(text::render_u64(seconds).as_str());
        }
        s.append("s");
        s
    } else if ms >= 0 {
        let mut s = render_tenths(count_tenths(ms as u64, 1_000));
        s.append("s");
        s
    } else {
        let mut s = "-".to_owned();
        s.append(render_tenths(count_tenths((-(ms as i128)) as u64, 1_000)).as_str());
        s.append("s");
        s
    }
}

/// Three digits.
pub open spec fn three_digits(n: nat) -> Seq<char> {
    seq![text::digit(n / 100 % 10), text::digit(n / 10 % 10), text::digit(n % 10)]
}

/// The decimal form of `n` with a comma before every third digit from the end.
pub open spec fn grouped(n: nat) -> Seq<char>
    decreases n,
{
    if n < 1000 {
        text::decimal(n)
    } else {
        grouped(n / 1000) + seq![','] + three_digits(n % 1000)
    }
}

/// A text without its commas.
pub open spec fn without_commas(s: Seq<char>) -> Seq<char>
    decreases s.len(),
{
    if s.len() == 0 {
        Seq::empty()
    } else if s.last() == ',' {
        without_commas(s.drop_last())
    } else {
        without_commas(s.drop_last()).push(s.last())
    }
}

proof fn lemma_without_commas_concat(a: Seq<char>, b: Seq<char>)
    ensures
        without_commas(a + b) == without_commas(a) + without_commas(b),
    decreases b.len(),
{
    if b.len() == 0 {
        assert(a + b =~= a);
        assert(without_commas(a) + without_commas(b) =~= without_commas(a));
    } else {
        assert((a + b).drop_last() =~= a + b.drop_last());
        lemma_without_commas_concat(a, b.drop_last());
        assert(without_commas(a + b) =~= without_commas(a) + without_commas(b));
    }
}

proof fn lemma_decimal_has_no_commas(n: nat)
    ensures
        without_commas(text::decimal(n)) == text::decimal(n),
    decreases n,
{
    let d = text::decimal(n);
    if n < 10 {
        assert(d.drop_last() =~= Seq::<char>::empty());
        assert(without_commas(d) =~= d) by {
            reveal_with_fuel(without_commas, 2);
        }
    } else {
        lemma_decimal_has_no_commas(n / 10);
        assert(d.drop_last() =~= text::decimal(n / 10));
    }
}

/// The last three digits of a number follow the digits of its thousands.
proof fn lemma_thousands(n: nat)
    requires
        n >= 1000,
    ensures
        text::decimal(n) == text::decimal(n / 1000) + three_digits(n % 1000),
{
    assert(n / 10 / 10 == n / 100 && n / 100 / 10 == n / 1000);
    assert(n % 1000 / 100 % 10 == n / 100 % 10 && n % 1000 / 10 % 10 == n / 10 % 10 && n % 1000 % 10 == n % 10);
    assert(text::decimal(n) == text::decimal(n / 10).push(text::digit(n % 10)));
    assert(text::decimal(n / 10) == text::decimal(n / 10 / 10).push(text::digit(n / 10 % 10)));
    assert(text::decimal(n / 100) == text::decimal(n / 100 / 10).push(text::digit(n / 100 % 10)));
    assert(text::decimal(n) =~= text::decimal(n / 1000) + three_digits(n % 1000));
}

/// Grouping only adds commas: without them, the digits are those of the number.
pub proof fn grouping_keeps_the_digits(n: nat)
    ensures
        without_commas(grouped(n)) == text::decimal(n),
    decreases n,
{
    if n < 1000 {
        lemma_decimal_has_no_commas(n);
    } else {
        grouping_keeps_the_digits(n / 1000);
        lemma_thousands(n);
        let comma = seq![','];
        let tail = three_digits(n % 1000);
        lemma_without_commas_concat(grouped(n / 1000) + comma, tail);
        lemma_without_commas_concat(grouped(n / 1000), comma);
        assert(without_commas(comma) =~= Seq::<char>::empty()) by {
            assert(comma.drop_last() =~= Seq::<char>::empty());
            reveal_with_fuel(without_commas, 2);
        }
        assert(without_commas(tail) =~= tail) by {
            assert(tail.drop_last() =~= seq![tail[0], tail[1]]);
            assert(tail.drop_last().drop_last() =~= seq![tail[0]]);
            assert(tail.drop_last().drop_last().drop_last() =~= Seq::<char>::empty());
            reveal_with_fuel(without_commas, 4);
        }
        assert(without_commas(grouped(n)) =~= text::decimal(n));
    }
}

/// Renders a number below one thousand with all three digits.
fn render_three(n: u64) -> (s: String)
    requires
        n < 1000,
    ensures
        s@ == three_digits(n as nat),
{
    let mut s = text::render_u64(n / 100);
    let ghost first = s@;
    s.append(text::render_u64(n / 10 % 10).as_str());
    s.append(text::render_u64(n % 10).as_str());
    assert(s@ =~= three_digits(n as nat));
    s
}

/// Renders a number with its digits grouped by commas.
pub fn format_number(n: u64) -> (s: String)
    ensures
        s@ == grouped(n as nat),
    decreases n,
{
    if n < 1000 {
        return text::render_u64(n);
    }
    proof {
        reveal_strlit(",");
    }
    let mut s = format_number(n / 1000);
    s.append(",");
    assert("," @ =~= seq![',']);
    s.append(render_three(n % 1000).as_str());
    s
}

/// The text that the first `n` bytes of `s` hold.
pub open spec fn byte_prefix(s: Seq<char>, n: int) -> Seq<char> {
    vstd::utf8::decode_utf8(vstd::utf8::encode_utf8(s).subrange(0, n))
}

/// `n` bytes into `s` a character ends.
pub open spec fn is_boundary(s: Seq<char>, n: int) -> bool {
    vstd::utf8::is_char_boundary(vstd::utf8::encode_utf8(s), n)
}

/// The first `n` bytes of a text.
pub fn take_bytes(s: &str, n: usize) -> (prefix: String)
    requires
        is_boundary(s@, n as int),
    ensures
        prefix@ == byte_prefix(s@, n as int),
{
    let (head, _tail) = s.split_at(n);
    proof {
        vstd::utf8::encode_utf8_decode_utf8(head@);
    }
    head.to_owned()
}

/// A text of at most `max` bytes, with its end cut off and marked where it is longer.
pub open spec fn truncated(s: Seq<char>, max: int) -> Seq<char> {
    if vstd::utf8::encode_utf8(s).len() <= max {
        s
    } else {
        byte_prefix(s, if max > 0 {
            max - 1
        } else {
            0
        }) + "…"@
    }
}

/// Cuts off the end of a text that is longer than `max` bytes.
pub fn truncate(s: &str, max: usize) -> (r: String)
    requires
        vstd::utf8::encode_utf8(s@).len() > max ==> is_boundary(
            s@,
            if max > 0 {
                max - 1
            } else {
                0
            },
        ),
    ensures
        r@ == truncated(s@, max as int),
{
    if s.as_bytes().len() <= max {
        return s.to_owned();
    }
    let keep: usize = if max > 0 {
        max - 1
    } else {
        0
    };
    let mut r = take_bytes(s, keep);
    r.append("…");
    r
}

/// `n` blanks.
pub open spec fn blanks(n: nat) -> Seq<char> {
    Seq::new(n, |i: int| ' ')
}

/// Renders `n` blanks.
fn render_blanks(n: usize) -> (s: String)
    ensures
        s@ == blanks(n as nat),
{
    proof {
        reveal_strlit(" ");
    }
    let mut s = String::new();
    let mut i: usize = 0;
    assert(s@ =~= blanks(0));
    while i < n
        invariant
            i <= n,
            s@ == blanks(i as nat),
            " "@ =~= seq![' '],
        decreases n - i,
    {
        s.append(" ");
        i = i + 1;
        assert(s@ =~= blanks(i as nat));
    }
    s
}

/// The text at the right end of a column.
pub open spec fn right(s: Seq<char>, width: int) -> Seq<char> {
    if s.len() >= width {
        s
    } else {
        blanks((width - s.len()) as nat) + s
    }
}

/// The text at the left end of a column.
pub open spec fn left(s: Seq<char>, width: int) -> Seq<char> {
    if s.len() >= width {
        s
    } else {
        s + blanks((width - s.len()) as nat)
    }
}

/// Puts a text at the right end of a column.
pub fn align_right(s: &str, width: usize) -> (r: String)
    ensures
        r@ == right(s@, width as int),
{
    let n: usize = s.unicode_len();
    if n >= width {
        return s.to_owned();
    }
    let mut r = render_blanks(width - n);
    r.append(s);
    r
}

/// Puts a text at the left end of a column.
pub fn align_left(s: &str, width: usize) -> (r: String)
    ensures
        r@ == left(s@, width as int),
{
    let n: usize = s.unicode_len();
    let mut r = s.to_owned();
    if n < width {
        r.append(render_blanks(width - n).as_str());
    }
    r
}

/// Texts with a separator between them.
pub open spec fn joined(parts: Seq<Seq<char>>, separator: Seq<char>) -> Seq<char>
    decreases parts.len(),
{
    if parts.len() == 0 {
        Seq::empty()
    } else if parts.len() == 1 {
        parts[0]
    } else {
        joined(parts.drop_last(), separator) + separator + parts.last()
    }
}

/// Joins texts with a separator between them.
pub fn join(parts: &Vec<String>, separator: &str) -> (s: String)
    ensures
        s@ == joined(group::ids(parts@), separator@),
{
    let ghost p = group::ids(parts@);
    let mut s = String::new();
    let mut i: usize = 0;
    assert(p.take(0) =~= Seq::<Seq<char>>::empty());
    while i < parts.len()
        invariant
            i <= parts@.len(),
            p == group::ids(parts@),
            s@ == joined(p.take(i as int), separator@),
        decreases parts@.len() - i,
    {
        proof {
            assert(p.take(i + 1).drop_last() =~= p.take(i as int));
            assert(p.take(i + 1).last() == parts@[i as int]@);
            if i == 0 {
                assert(p.take(1)[0] == parts@[0]@);
                assert(s@ + parts@[0]@ =~= parts@[0]@);
            }
        }
        if i > 0 {
            s.append(separator);
        }
        s.append(parts[i].as_str());
        i = i + 1;
    }
    assert(p.take(i as int) =~= p);
    s
}

} // verus!

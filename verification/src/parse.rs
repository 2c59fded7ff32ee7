//! Reading whole numbers from text.
use vstd::prelude::*;

verus! {

/// The value of a decimal digit.
pub open spec fn digit_value(c: char) -> Option<nat> {
    if '0' <= c <= '9' {
        Some((c as nat - '0' as nat) as nat)
    } else {
        None
    }
}

/// The number that some digits name; there is none without digits.
pub open spec fn digits_value(s: Seq<char>) -> Option<nat>
    decreases s.len(),
{
    if s.len() == 0 {
        None
    } else if s.len() == 1 {
        digit_value(s[0])
    } else {
        match (digits_value(s.drop_last()), digit_value(s.last())) {
            (Some(n), Some(d)) => Some(n * 10 + d),
            _ => None,
        }
    }
}

/// The number that a text names, with an optional plus sign.
pub open spec fn unsigned_value(s: Seq<char>) -> Option<nat> {
    if s.len() > 0 && s[0] == '+' {
        digits_value(s.skip(1))
    } else {
        digits_value(s)
    }
}

/// The number that a text names, with an optional sign.
pub open spec fn signed_value(s: Seq<char>) -> Option<int> {
    if s.len() > 0 && s[0] == '-' {
        match digits_value(s.skip(1)) {
            Some(n) => Some(-(n as int)),
            None => None,
        }
    } else {
        match unsigned_value(s) {
            Some(n) => Some(n as int),
            None => None,
        }
    }
}

/// The number that a text names, where it fits in 64 bits.
pub open spec fn u64_value(s: Seq<char>) -> Option<u64> {
    match unsigned_value(s) {
        Some(n) => if n <= u64::MAX {
            Some(n as u64)
        } else {
            None
        },
        None => None,
    }
}

/// The number that a text names, where it fits in 64 bits with a sign.
pub open spec fn i64_value(s: Seq<char>) -> Option<i64> {
    match signed_value(s) {
        Some(n) => if i64::MIN <= n <= i64::MAX {
            Some(n as i64)
        } else {
            None
        },
        None => None,
    }
}

/// Longer digits name larger numbers.
proof fn lemma_prefix_is_smaller(s: Seq<char>, k: int)
    requires
        digits_value(s) is Some,
        0 < k <= s.len(),
    ensures
        digits_value(s.take(k)) is Some,
        digits_value(s.take(k))->0 <= digits_value(s)->0,
    decreases s.len(),
{
    if k == s.len() {
        assert(s.take(k) =~= s);
    } else {
        lemma_prefix_is_smaller(s.drop_last(), k);
        assert(s.drop_last().take(k) =~= s.take(k));
    }
}

/// The number that the characters from `start` on name, where it does not exceed `max`.
fn parse_digits(s: &str, start: usize, max: u128) -> (r: Option<u128>)
    requires
        start <= s@.len(),
        max <= 0xffff_ffff_ffff_ffff,
    ensures
        r == match digits_value(s@.skip(start as int)) {
            Some(n) => if n <= max {
                Some(n as u128)
            } else {
                None
            },
            None => None,
        },
{
    let n: usize = s.unicode_len();
    if start >= n {
        return None;
    }
    let ghost t = s@.skip(start as int);
    let mut value: u128 = 0;
    let mut i: usize = start;
    while i < n
        invariant
            start <= i <= n,
            start < n,
            n == s@.len(),
            t == s@.skip(start as int),
            max <= 0xffff_ffff_ffff_ffff,
            value <= max,
            i == start ==> value == 0,
            i > start ==> digits_value(t.take(i - start)) == Some(value as nat),
        decreases n - i,
    {
        let c: char = s.get_char(i);
        proof {
            let k = i - start;
            assert(t.take(k + 1).drop_last() =~= t.take(k));
            assert(t.take(k + 1).last() == c);
            if k == 0 {
                assert(t.take(1)[0] == c);
            }
            if digits_value(t) is Some {
                lemma_prefix_is_smaller(t, k + 1);
            }
        }
        if c < '0' || c > '9' {
            return None;
        }
        let d: u128 = (c as u32 - '0' as u32) as u128;
        let next: u128 = value * 10 + d;
        assert(digits_value(t.take(i + 1 - start)) == Some(next as nat));
        if next > max {
            return None;
        }
        value = next;
        i = i + 1;
    }
    assert(t.take(i - start) =~= t);
    Some(value)
}

/// Reads an unsigned number.
pub fn parse_u64(s: &str) -> (r: Option<u64>)
    ensures
        r == u64_value(s@),
{
    let n: usize = s.unicode_len();
    let start: usize = if n > 0 && s.get_char(0) == '+' {
        1
    } else {
        0
    };
    assert(s@.skip(0) =~= s@);
    match parse_digits(s, start, 0xffff_ffff_ffff_ffff) {
        Some(v) => Some(v as u64),
        None => None,
    }
}

/// Reads a number with an optional sign.
pub fn parse_i64(s: &str) -> (r: Option<i64>)
    ensures
        r == i64_value(s@),
{
    let n: usize = s.unicode_len();
    assert(s@.skip(0) =~= s@);
    if n > 0 && s.get_char(0) == '-' {
        return match parse_digits(s, 1, 0x8000_0000_0000_0000) {
            Some(v) => Some((-(v as i128)) as i64),
            None => None,
        };
    }
    let start: usize = if n > 0 && s.get_char(0) == '+' {
        1
    } else {
        0
    };
    match parse_digits(s, start, 0x7fff_ffff_ffff_ffff) {
        Some(v) => Some(v as i64),
        None => None,
    }
}

/// A text that begins with a minus sign names no unsigned number.
pub proof fn lemma_sign_is_no_digit(s: Seq<char>)
    requires
        s.len() > 0,
        s[0] == '-',
    ensures
        unsigned_value(s) is None,
    decreases s.len(),
{
    if s.len() > 1 {
        assert(s.drop_last()[0] == s[0]);
        lemma_sign_is_no_digit(s.drop_last());
    }
}

} // verus!

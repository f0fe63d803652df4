//! Decimal integer parsing with the semantics of `str::parse` for integers:
//! an optional sign followed by one or more ASCII digits, nothing else, and a
//! value within the target type's range.

use vstd::prelude::*;

use crate::text::{decimal, digit_char};

verus! {

pub open spec fn is_ascii_digit(c: char) -> bool {
    '0' <= c && c <= '9'
}

pub open spec fn all_digits(s: Seq<char>) -> bool {
    forall|i: int| 0 <= i < s.len() ==> is_ascii_digit(#[trigger] s[i])
}

pub open spec fn digit_value(c: char) -> nat {
    ((c as int) - ('0' as int)) as nat
}

/// The value of a string of decimal digits.
pub open spec fn digits_value(s: Seq<char>) -> nat
    decreases s.len(),
{
    if s.len() == 0 {
        0
    } else {
        digits_value(s.drop_last()) * 10 + digit_value(s.last())
    }
}

/// What `str::parse` returns for an unsigned integer type whose largest value
/// is `max`: an optional `+`, then at least one digit, and no other character.
pub open spec fn parse_unsigned_spec(s: Seq<char>, max: nat) -> Option<nat> {
    let body = if s.len() > 0 && s[0] == '+' { s.drop_first() } else { s };
    if body.len() > 0 && all_digits(body) && digits_value(body) <= max {
        Some(digits_value(body))
    } else {
        None
    }
}

/// What `str::parse` returns for a signed integer type with range
/// `min..=max`: an optional `+` or `-`, then at least one digit.
pub open spec fn parse_signed_spec(s: Seq<char>, min: int, max: int) -> Option<int> {
    if s.len() > 0 && s[0] == '-' {
        let body = s.drop_first();
        if body.len() > 0 && all_digits(body) && -(digits_value(body) as int) >= min {
            Some(-(digits_value(body) as int))
        } else {
            None
        }
    } else {
        match parse_unsigned_spec(s, if max < 0 { 0 } else { max as nat }) {
            Some(n) => if n <= max { Some(n as int) } else { None },
            None => None,
        }
    }
}

proof fn lemma_digits_value_monotone(s: Seq<char>, k: int)
    requires
        0 <= k <= s.len(),
        all_digits(s),
    ensures
        digits_value(s.take(k)) <= digits_value(s),
    decreases s.len() - k,
{
    if k < s.len() {
        lemma_digits_value_monotone(s, k + 1);
        assert(s.take(k + 1).drop_last() =~= s.take(k));
    } else {
        assert(s.take(k) =~= s);
    }
}

proof fn lemma_step_bound(acc: nat, d: nat, max: nat)
    requires
        d < 10,
    ensures
        (d <= max && acc <= (max - d) / 10) <==> acc * 10 + d <= max,
{
    if d <= max {
        assert((acc <= (max - d) / 10) <==> acc * 10 + d <= max) by (nonlinear_arith)
            requires d <= max, d < 10;
    }
}

/// The value of the digit run `body`, when it is within `max`.
fn digits_within(body: &[char], max: u64) -> (r: Option<u64>)
    ensures
        match r {
            Some(n) => body@.len() > 0 && all_digits(body@) && digits_value(body@) <= max && n == digits_value(body@),
            None => !(body@.len() > 0 && all_digits(body@) && digits_value(body@) <= max),
        },
{
    if body.len() == 0 {
        return None;
    }
    let mut acc: u64 = 0;
    let mut i: usize = 0;
    while i < body.len()
        invariant
            i <= body@.len(),
            all_digits(body@.take(i as int)),
            acc == digits_value(body@.take(i as int)),
            acc <= max,
        decreases body.len() - i,
    {
        let c = body[i];
        if !('0' <= c && c <= '9') {
            assert(!is_ascii_digit(body@[i as int]));
            return None;
        }
        let d: u64 = (c as u64) - ('0' as u64);
        proof {
            lemma_step_bound(acc as nat, d as nat, max as nat);
            assert(body@.take(i + 1).drop_last() =~= body@.take(i as int));
            assert(body@.take(i + 1).last() == c);
        }
        if d > max || acc > (max - d) / 10 {
            proof {
                assert(all_digits(body@.take(i + 1)));
                assert(digits_value(body@.take(i + 1)) > max);
                if all_digits(body@) {
                    lemma_digits_value_monotone(body@, i + 1);
                }
            }
            return None;
        }
        acc = acc * 10 + d;
        i = i + 1;
    }
    assert(body@.take(body@.len() as int) =~= body@);
    Some(acc)
}

/// Parses an unsigned decimal integer no larger than `max`.
pub fn parse_unsigned(s: &str, max: u64) -> (r: Option<u64>)
    ensures
        match r {
            Some(n) => parse_unsigned_spec(s@, max as nat) == Some(n as nat),
            None => parse_unsigned_spec(s@, max as nat) is None,
        },
{
    let v = crate::text::str_chars(s);
    parse_unsigned_chars(v.as_slice(), max)
}

/// Parses an unsigned decimal integer no larger than `max`, from characters.
pub fn parse_unsigned_chars(v: &[char], max: u64) -> (r: Option<u64>)
    ensures
        match r {
            Some(n) => parse_unsigned_spec(v@, max as nat) == Some(n as nat),
            None => parse_unsigned_spec(v@, max as nat) is None,
        },
{
    let body: &[char] = if v.len() > 0 && v[0] == '+' {
        let b = slice_from(v, 1);
        assert(b@ =~= v@.drop_first());
        b
    } else {
        v
    };
    digits_within(body, max)
}

/// Parses a signed decimal integer in `min..=max`.
pub fn parse_signed(s: &str, min: i64, max: i64) -> (r: Option<i64>)
    requires
        min <= 0 <= max,
    ensures
        match r {
            Some(n) => parse_signed_spec(s@, min as int, max as int) == Some(n as int),
            None => parse_signed_spec(s@, min as int, max as int) is None,
        },
{
    let v = crate::text::str_chars(s);
    parse_signed_chars(v.as_slice(), min, max)
}

/// Parses a signed decimal integer in `min..=max`, from characters.
pub fn parse_signed_chars(v: &[char], min: i64, max: i64) -> (r: Option<i64>)
    requires
        min <= 0 <= max,
    ensures
        match r {
            Some(n) => parse_signed_spec(v@, min as int, max as int) == Some(n as int),
            None => parse_signed_spec(v@, min as int, max as int) is None,
        },
{
    if v.len() > 0 && v[0] == '-' {
        let body = slice_from(v, 1);
        assert(body@ =~= v@.drop_first());
        // magnitude of the most negative value
        let limit: u64 = if min == i64::MIN { 0x8000_0000_0000_0000u64 } else { (-min) as u64 };
        match digits_within(body, limit) {
            Some(m) => {
                if m == 0x8000_0000_0000_0000u64 {
                    Some(i64::MIN)
                } else {
                    Some(-(m as i64))
                }
            },
            None => None,
        }
    } else {
        let body: &[char] = if v.len() > 0 && v[0] == '+' {
            let b = slice_from(v, 1);
            assert(b@ =~= v@.drop_first());
            b
        } else {
            v
        };
        match digits_within(body, max as u64) {
            Some(n) => Some(n as i64),
            None => None,
        }
    }
}

/// The slice without its first `start` elements.
pub fn slice_from(v: &[char], start: usize) -> (r: &[char])
    requires
        start <= v@.len(),
    ensures
        r@ == v@.skip(start as int),
{
    let (_, tail) = v.split_at(start);
    tail
}

/// The decimal rendering of a number is all digits, starts with a digit,
/// and reads back as the number.
pub proof fn lemma_decimal_reads_back(n: nat)
    ensures
        decimal(n).len() > 0,
        all_digits(decimal(n)),
        is_ascii_digit(decimal(n)[0]),
        digits_value(decimal(n)) == n,
    decreases n,
{
    let d = n % 10;
    assert(is_ascii_digit(digit_char(d)) && digit_value(digit_char(d)) == d) by {
        assert(d < 10);
    }
    if n >= 10 {
        lemma_decimal_reads_back(n / 10);
        let t = decimal(n / 10);
        assert(decimal(n) == t.push(digit_char(d)));
        assert(decimal(n).drop_last() =~= t);
        assert(decimal(n)[0] == t[0]);
        assert forall|i: int| 0 <= i < decimal(n).len() implies is_ascii_digit(#[trigger] decimal(n)[i]) by {
            if i < t.len() {
                assert(decimal(n)[i] == t[i]);
            }
        }
        assert(decimal(n).last() == digit_char(d));
        assert(digits_value(decimal(n)) == digits_value(t) * 10 + digit_value(digit_char(d)));
        assert(n == (n / 10) * 10 + d);
    } else {
        assert(decimal(n) =~= seq![digit_char(n)]);
        assert(decimal(n).drop_last() =~= Seq::<char>::empty());
        assert(decimal(n).last() == digit_char(d));
        assert(digits_value(Seq::<char>::empty()) == 0);
        assert(digits_value(decimal(n)) == digits_value(Seq::<char>::empty()) * 10 + digit_value(digit_char(d)));
    }
}

} // verus!

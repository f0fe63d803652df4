//! Character-level string helpers and decimal rendering.

use vstd::prelude::*;

verus! {

/// Copies the characters of a string slice into a vector.
pub fn str_chars(s: &str) -> (v: Vec<char>)
    ensures
        v@ == s@,
{
    let mut v: Vec<char> = Vec::new();
    for c in it: s.chars()
        invariant
            v@ == it.seq().take(it.index() as int),
    {
        v.push(c);
    }
    v
}

/// Appends one character to a string (`String::push`).
#[verifier::external_body]
pub(crate) fn push_char(s: &mut String, c: char)
    ensures
        final(s)@ == old(s)@.push(c),
{
    s.push(c);
}

/// Appends the characters of `v` to `s`.
pub fn push_chars(s: &mut String, v: &[char])
    ensures
        final(s)@ == old(s)@ + v@,
{
    let ghost start = s@;
    for i in 0..v.len()
        invariant
            s@ == start + v@.take(i as int),
    {
        push_char(s, v[i]);
        assert(v@.take(i + 1) == v@.take(i as int).push(v@[i as int]));
    }
    assert(v@.take(v@.len() as int) == v@);
}

/// Appends the characters of a string slice to `s`.
pub fn push_str(s: &mut String, t: &str)
    ensures
        final(s)@ == old(s)@ + t@,
{
    let v = str_chars(t);
    push_chars(s, v.as_slice());
}

/// Builds a string from a character vector.
pub fn chars_to_string(v: &[char]) -> (s: String)
    ensures
        s@ == v@,
{
    let mut s = String::new();
    push_chars(&mut s, v);
    s
}

/// The ASCII digit for a value below ten.
pub open spec fn digit_char(d: nat) -> char {
    if d == 0 { '0' }
    else if d == 1 { '1' }
    else if d == 2 { '2' }
    else if d == 3 { '3' }
    else if d == 4 { '4' }
    else if d == 5 { '5' }
    else if d == 6 { '6' }
    else if d == 7 { '7' }
    else if d == 8 { '8' }
    else { '9' }
}

/// The decimal rendering of a natural number, without sign or leading zeros
/// (what `Display` prints for an unsigned integer).
pub open spec fn decimal(n: nat) -> Seq<char>
    decreases n,
{
    if n < 10 {
        seq![digit_char(n)]
    } else {
        decimal(n / 10).push(digit_char(n % 10))
    }
}

/// A decimal rendering is never empty and starts with a digit.
pub proof fn lemma_decimal_starts_with_digit(n: nat)
    ensures
        decimal(n).len() > 0,
        '0' <= decimal(n)[0] <= '9',
    decreases n,
{
    if n >= 10 {
        lemma_decimal_starts_with_digit(n / 10);
        assert(decimal(n)[0] == decimal(n / 10)[0]);
    }
}

fn digit_of(d: u64) -> (c: char)
    requires
        d < 10,
    ensures
        c == digit_char(d as nat),
{
    if d == 0 { '0' }
    else if d == 1 { '1' }
    else if d == 2 { '2' }
    else if d == 3 { '3' }
    else if d == 4 { '4' }
    else if d == 5 { '5' }
    else if d == 6 { '6' }
    else if d == 7 { '7' }
    else if d == 8 { '8' }
    else { '9' }
}

/// Renders an unsigned integer in decimal.
pub fn decimal_chars(n: u64) -> (v: Vec<char>)
    ensures
        v@ == decimal(n as nat),
    decreases n,
{
    if n < 10 {
        let mut v = Vec::new();
        v.push(digit_of(n));
        v
    } else {
        let mut v = decimal_chars(n / 10);
        v.push(digit_of(n % 10));
        v
    }
}

/// Appends the decimal rendering of `n` to `s`.
pub fn push_decimal(s: &mut String, n: u64)
    ensures
        final(s)@ == old(s)@ + decimal(n as nat),
{
    let v = decimal_chars(n);
    push_chars(s, v.as_slice());
}

/// Whether `prefix` is a prefix of `s`.
pub open spec fn has_prefix(s: Seq<char>, prefix: Seq<char>) -> bool {
    prefix.len() <= s.len() && s.take(prefix.len() as int) == prefix
}

/// Whether `needle` occurs in `s` as a contiguous run.
pub open spec fn contains_run(s: Seq<char>, needle: Seq<char>) -> bool {
    exists|i: int| 0 <= i <= s.len() - needle.len() && #[trigger] s.subrange(i, i + needle.len()) == needle
}

/// Exact equality of two character sequences.
pub fn chars_eq(a: &[char], b: &[char]) -> (r: bool)
    ensures
        r == (a@ == b@),
{
    if a.len() != b.len() {
        return false;
    }
    let mut i: usize = 0;
    while i < a.len()
        invariant
            a@.len() == b@.len(),
            i <= a@.len(),
            forall|j: int| 0 <= j < i ==> a@[j] == b@[j],
        decreases a.len() - i,
    {
        if a[i] != b[i] {
            return false;
        }
        i = i + 1;
    }
    assert(a@ =~= b@);
    true
}

/// Whether the characters of `v` equal those of the string slice `t`.
pub fn chars_eq_str(v: &[char], t: &str) -> (r: bool)
    ensures
        r == (v@ == t@),
{
    let w = str_chars(t);
    chars_eq(v, w.as_slice())
}

/// Whether `v` starts with `prefix`.
pub fn starts_with(v: &[char], prefix: &[char]) -> (r: bool)
    ensures
        r == has_prefix(v@, prefix@),
{
    if prefix.len() > v.len() {
        return false;
    }
    let mut i: usize = 0;
    while i < prefix.len()
        invariant
            prefix@.len() <= v@.len(),
            i <= prefix@.len(),
            forall|j: int| 0 <= j < i ==> v@[j] == prefix@[j],
        decreases prefix.len() - i,
    {
        if v[i] != prefix[i] {
            assert(v@.take(prefix@.len() as int)[i as int] != prefix@[i as int]);
            return false;
        }
        i = i + 1;
    }
    assert(v@.take(prefix@.len() as int) =~= prefix@);
    true
}

/// Whether `v` starts with the characters of the string slice `prefix`.
pub fn starts_with_str(v: &[char], prefix: &str) -> (r: bool)
    ensures
        r == has_prefix(v@, prefix@),
{
    let p = str_chars(prefix);
    starts_with(v, p.as_slice())
}

/// Whether `needle` occurs in `v`.
pub fn contains_chars(v: &[char], needle: &[char]) -> (r: bool)
    ensures
        r == contains_run(v@, needle@),
{
    if needle.len() > v.len() {
        return false;
    }
    if needle.len() == 0 {
        assert(v@.subrange(0int, 0int + needle@.len()) =~= needle@);
        return true;
    }
    let last = v.len() - needle.len();
    let mut i: usize = 0;
    while i <= last
        invariant
            last == v@.len() - needle@.len(),
            0 < needle@.len() <= v@.len() <= usize::MAX,
            i <= last + 1,
            forall|k: int| 0 <= k < i ==> #[trigger] v@.subrange(k, k + needle@.len()) != needle@,
        decreases last + 1 - i,
    {
        let mut j: usize = 0;
        let mut matched = true;
        while j < needle.len()
            invariant
                i <= last,
                last == v@.len() - needle@.len(),
                needle@.len() <= v@.len() <= usize::MAX,
                j <= needle@.len(),
                matched ==> forall|m: int| 0 <= m < j ==> v@[i + m] == needle@[m],
                !matched ==> v@.subrange(i as int, i + needle@.len()) != needle@,
            decreases needle.len() - j,
        {
            if matched && v[i + j] != needle[j] {
                matched = false;
                assert(v@.subrange(i as int, i + needle@.len())[j as int] != needle@[j as int]);
            }
            j = j + 1;
        }
        if matched {
            assert(v@.subrange(i as int, i + needle@.len()) =~= needle@);
            return true;
        }
        i = i + 1;
    }
    assert forall|k: int| 0 <= k <= v@.len() - needle@.len() implies
        #[trigger] v@.subrange(k, k + needle@.len()) != needle@ by {}
    false
}

} // verus!

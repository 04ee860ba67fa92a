//! Conversions between integers and their textual form, and the small string
//! utilities the rest of the crate builds on.

use vstd::prelude::*;
use vstd::std_specs::iter::IteratorSpec;
use vstd::string::*;

verus! {

/// `String::push` of the standard library: the character is appended at the
/// end of the string and nothing else changes.
pub assume_specification[ std::string::String::push ](s: &mut std::string::String, c: char)
    ensures
        final(s)@ == old(s)@.push(c),
;

/// The character that stands for the digit `d`, for `0 <= d <= 9`.
pub open spec fn digit_char(d: int) -> char {
    (48 + d) as char
}

/// The digits of `n` in the given base (2 to 10), most significant first,
/// without leading zeros; zero is the single digit `0`.
pub open spec fn digits(n: nat, base: nat) -> Seq<char>
    decreases n,
{
    if base < 2 || n < base {
        seq![digit_char(n as int)]
    } else {
        proof {
            assert(n / base < n) by (nonlinear_arith)
                requires
                    base >= 2,
                    n >= base,
            ;
        }
        digits(n / base, base).push(digit_char((n % base) as int))
    }
}

/// Decimal text of an integer: a minus sign for negative numbers, then the
/// digits of the magnitude.
pub open spec fn int_text(i: int) -> Seq<char> {
    if i < 0 {
        seq!['-'] + digits((-i) as nat, 10)
    } else {
        digits(i as nat, 10)
    }
}

/// Octal text of a number with the `0o` prefix.
pub open spec fn octal_text(n: nat) -> Seq<char> {
    seq!['0', 'o'] + digits(n, 8)
}

pub open spec fn is_digit(c: char) -> bool {
    '0' <= c <= '9'
}

pub open spec fn digit_value(c: char) -> int {
    c as int - 48
}

pub open spec fn all_digits(s: Seq<char>) -> bool {
    forall|i: int| 0 <= i < s.len() ==> is_digit(#[trigger] s[i])
}

/// The number that a sequence of decimal digits denotes.
pub open spec fn digits_value(s: Seq<char>) -> int
    decreases s.len(),
{
    if s.len() == 0 {
        0
    } else {
        digits_value(s.drop_last()) * 10 + digit_value(s.last())
    }
}

/// Whether the text starts with a sign character.
pub open spec fn has_sign(s: Seq<char>) -> bool {
    s.len() > 0 && (s[0] == '-' || s[0] == '+')
}

/// The text after the optional sign.
pub open spec fn unsigned_part(s: Seq<char>) -> Seq<char> {
    if has_sign(s) {
        s.subrange(1, s.len() as int)
    } else {
        s
    }
}

/// Reading of a text as a signed 64-bit decimal integer: an optional `+` or
/// `-`, then one or more decimal digits and nothing else, denoting a number
/// within the range of `i64`. Every other text has no reading.
pub open spec fn parse_int(s: Seq<char>) -> Option<int> {
    let body = unsigned_part(s);
    let magnitude = digits_value(body);
    let value = if s.len() > 0 && s[0] == '-' {
        -magnitude
    } else {
        magnitude
    };
    if body.len() == 0 || !all_digits(body) {
        None
    } else if value < i64::MIN || value > i64::MAX {
        None
    } else {
        Some(value)
    }
}

pub proof fn lemma_digits_value_prefix(s: Seq<char>, k: int)
    requires
        all_digits(s),
        0 <= k <= s.len(),
    ensures
        0 <= digits_value(s.subrange(0, k)) <= digits_value(s),
    decreases s.len() - k,
{
    if k == s.len() {
        assert(s.subrange(0, k) == s);
        lemma_digits_value_nonneg(s);
    } else {
        lemma_digits_value_prefix(s, k + 1);
        let t = s.subrange(0, k + 1);
        assert(t.drop_last() == s.subrange(0, k));
        assert(is_digit(s[k]));
        assert(t.last() == s[k]);
        lemma_digits_value_nonneg(s.subrange(0, k));
    }
}

pub proof fn lemma_digits_value_nonneg(s: Seq<char>)
    requires
        all_digits(s),
    ensures
        0 <= digits_value(s),
    decreases s.len(),
{
    if s.len() > 0 {
        assert(is_digit(s.last()));
        lemma_digits_value_nonneg(s.drop_last());
    }
}

/// The characters of a string, in order.
pub fn string_chars(s: &str) -> (v: Vec<char>)
    ensures
        v@ == s@,
{
    let mut v: Vec<char> = Vec::new();
    let mut it = s.chars();
    let ghost mut k: int = 0;
    loop
        invariant
            0 <= k <= s@.len(),
            v@ == s@.subrange(0, k),
            it.remaining() == s@.subrange(k, s@.len() as int),
        decreases s@.len() - k,
    {
        match it.next() {
            Some(c) => {
                v.push(c);
                proof {
                    k = k + 1;
                }
            },
            None => {
                return v;
            },
        }
    }
}

/// The string made of the characters `v[from..to]`.
pub fn string_from_chars(v: &Vec<char>, from: usize, to: usize) -> (s: String)
    requires
        from <= to <= v.len(),
    ensures
        s@ == v@.subrange(from as int, to as int),
{
    let mut s = String::new();
    let mut i: usize = from;
    while i < to
        invariant
            from <= i <= to <= v.len(),
            s@ == v@.subrange(from as int, i as int),
        decreases to - i,
    {
        s.push(v[i]);
        i = i + 1;
    }
    s
}

/// Whether two strings hold the same characters.
pub fn same_text(a: &str, b: &str) -> (r: bool)
    ensures
        r == (a@ == b@),
{
    let x: String = a.to_owned();
    let y: String = b.to_owned();
    x == y
}

fn push_digits(s: &mut String, n: u64, base: u64)
    requires
        2 <= base <= 10,
    ensures
        final(s)@ == old(s)@ + digits(n as nat, base as nat),
    decreases n,
{
    if n >= base {
        assert(n / base < n) by (nonlinear_arith)
            requires
                base >= 2,
                n >= base,
        ;
        push_digits(s, n / base, base);
    }
    let ghost mid = s@;
    let d: u8 = (n % base) as u8;
    let c: char = (48u8 + d) as char;
    s.push(c);
    proof {
        assert(c == digit_char((n % base) as int));
        if n >= base {
            assert(mid == old(s)@ + digits((n / base) as nat, base as nat));
            assert(digits(n as nat, base as nat) == digits((n / base) as nat, base as nat).push(c));
            assert(mid.push(c) == old(s)@ + digits(n as nat, base as nat));
        } else {
            assert(n % base == n) by (nonlinear_arith)
                requires
                    0 <= n < base,
            ;
            assert(digits(n as nat, base as nat) == seq![c]);
            assert(old(s)@ + seq![c] == old(s)@.push(c));
        }
    }
}

/// Decimal text of a signed integer.
pub fn i64_to_string(i: i64) -> (s: String)
    ensures
        s@ == int_text(i as int),
{
    let mut s = String::new();
    if i < 0 {
        s.push('-');
        let m: u64 = ((-(i + 1)) as u64) + 1;
        push_digits(&mut s, m, 10);
        assert(s@ == seq!['-'] + digits((-i) as nat, 10));
    } else {
        push_digits(&mut s, i as u64, 10);
        assert(s@ == Seq::<char>::empty() + digits(i as nat, 10));
    }
    s
}

/// Decimal text of an unsigned integer.
pub fn u64_to_string(n: u64) -> (s: String)
    ensures
        s@ == digits(n as nat, 10),
{
    let mut s = String::new();
    push_digits(&mut s, n, 10);
    assert(s@ == Seq::<char>::empty() + digits(n as nat, 10));
    s
}

/// Octal text of an unsigned integer, with the `0o` prefix.
pub fn u64_to_octal_string(n: u64) -> (s: String)
    ensures
        s@ == octal_text(n as nat),
{
    let mut s = String::new();
    s.push('0');
    s.push('o');
    push_digits(&mut s, n, 8);
    assert(s@ == seq!['0', 'o'] + digits(n as nat, 8));
    s
}

/// Reads `v` as a signed 64-bit decimal integer.
pub fn parse_i64_chars(v: &Vec<char>) -> (r: Option<i64>)
    ensures
        r matches Some(i) ==> parse_int(v@) == Some(i as int),
        r is None ==> parse_int(v@) is None,
{
    let n = v.len();
    let mut start: usize = 0;
    let mut negative = false;
    if n > 0 && (v[0] == '-' || v[0] == '+') {
        negative = v[0] == '-';
        start = 1;
    }
    let ghost body = unsigned_part(v@);
    assert(body == v@.subrange(start as int, n as int));
    if start == n {
        return None;
    }
    let mut acc: u64 = 0;
    let mut i: usize = start;
    while i < n
        invariant
            start <= i <= n,
            n == v.len(),
            body == unsigned_part(v@),
            body == v@.subrange(start as int, n as int),
            all_digits(body.subrange(0, i - start)),
            acc == digits_value(body.subrange(0, i - start)),
            acc <= 9223372036854775808,
        decreases n - i,
    {
        let c = v[i];
        if !(c >= '0' && c <= '9') {
            assert(!is_digit(body[i - start]));
            return None;
        }
        let ghost prefix = body.subrange(0, i - start);
        let ghost next = body.subrange(0, i - start + 1);
        proof {
            assert(next.drop_last() == prefix);
            assert(next.last() == c);
            assert forall|j: int| 0 <= j < next.len() implies is_digit(#[trigger] next[j]) by {
                if j < prefix.len() {
                    assert(next[j] == prefix[j]);
                }
            }
        }
        let d: u64 = (c as u64) - 48;
        if acc > 922337203685477580 || acc * 10 + d > 9223372036854775808 {
            proof {
                if all_digits(body) {
                    lemma_digits_value_prefix(body, i - start + 1);
                }
            }
            return None;
        }
        acc = acc * 10 + d;
        i = i + 1;
    }
    assert(body.subrange(0, n - start) == body);
    if negative {
        if acc == 9223372036854775808 {
            Some(i64::MIN)
        } else {
            Some(-(acc as i64))
        }
    } else {
        if acc > 9223372036854775807 {
            None
        } else {
            Some(acc as i64)
        }
    }
}

/// Reads a string as a signed 64-bit decimal integer.
pub fn parse_i64(s: &str) -> (r: Option<i64>)
    ensures
        r matches Some(i) ==> parse_int(s@) == Some(i as int),
        r is None ==> parse_int(s@) is None,
{
    let v = string_chars(s);
    parse_i64_chars(&v)
}

} // verus!

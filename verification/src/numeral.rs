//! Decimal numerals: the spec-level meaning of digit strings, a verified
//! parser matching `u64`'s decimal grammar (optional leading `+`, digits only,
//! must fit in 64 bits), and rendering of a `u64` back to its digit string.

use vstd::prelude::*;

verus! {

/// Numeric value of a decimal digit character; 10 marks a non-digit.
pub open spec fn digit_val(c: char) -> nat {
    if c == '0' {
        0
    } else if c == '1' {
        1
    } else if c == '2' {
        2
    } else if c == '3' {
        3
    } else if c == '4' {
        4
    } else if c == '5' {
        5
    } else if c == '6' {
        6
    } else if c == '7' {
        7
    } else if c == '8' {
        8
    } else if c == '9' {
        9
    } else {
        10
    }
}

pub open spec fn is_digit(c: char) -> bool {
    digit_val(c) < 10
}

pub open spec fn all_digits(s: Seq<char>) -> bool {
    forall|i: int| 0 <= i < s.len() ==> is_digit(#[trigger] s[i])
}

/// Value of a character sequence read as a decimal numeral, most significant
/// digit first.
pub open spec fn digits_val(s: Seq<char>) -> nat
    decreases s.len(),
{
    if s.len() == 0 {
        0
    } else {
        digits_val(s.drop_last()) * 10 + digit_val(s.last())
    }
}

/// The digit character for a value below ten.
pub open spec fn digit_char(d: nat) -> char {
    if d == 0 {
        '0'
    } else if d == 1 {
        '1'
    } else if d == 2 {
        '2'
    } else if d == 3 {
        '3'
    } else if d == 4 {
        '4'
    } else if d == 5 {
        '5'
    } else if d == 6 {
        '6'
    } else if d == 7 {
        '7'
    } else if d == 8 {
        '8'
    } else {
        '9'
    }
}

/// Decimal digits of `n`, most significant first: no sign, no leading zeros.
pub open spec fn spec_u64_string(n: u64) -> Seq<char>
    decreases n,
{
    if n < 10 {
        seq![digit_char(n as nat)]
    } else {
        spec_u64_string(n / 10).push(digit_char((n % 10) as nat))
    }
}

/// The digits of a numeral: what is left after an optional leading `+`.
pub open spec fn parse_body(s: Seq<char>) -> Seq<char> {
    if s.len() > 0 && s[0] == '+' {
        s.drop_first()
    } else {
        s
    }
}

/// What `u64` parsing accepts: an optional leading `+`, then one or more
/// decimal digits whose value fits in 64 bits.
pub open spec fn spec_parse_u64(s: Seq<char>) -> Option<u64> {
    let body = parse_body(s);
    if body.len() == 0 || !all_digits(body) {
        None
    } else if digits_val(body) > u64::MAX {
        None
    } else {
        Some(digits_val(body) as u64)
    }
}

/// A numeral never shrinks when digits are appended: the value of any prefix
/// is at most the value of the whole.
pub proof fn lemma_digits_val_prefix(s: Seq<char>, i: int)
    requires
        0 <= i <= s.len(),
    ensures
        digits_val(s.take(i)) <= digits_val(s),
    decreases s.len(),
{
    if i == s.len() {
        assert(s.take(i) =~= s);
    } else {
        lemma_digits_val_prefix(s.drop_last(), i);
        assert(s.drop_last().take(i) =~= s.take(i));
    }
}

/// Relies on `u64`'s `Display` implementation in std: the decimal digits of
/// the value, most significant first, with no sign and no leading zeros.
#[verifier::external_body]
pub fn u64_to_string(n: u64) -> (r: String)
    ensures
        r@ == spec_u64_string(n),
{
    n.to_string()
}

/// Relies on std's `String::push`: appends exactly the given character.
#[verifier::external_body]
pub fn push_char(s: &mut String, c: char)
    ensures
        final(s)@ == old(s)@.push(c),
{
    s.push(c);
}

/// Digit value of a character, or `None` for a non-digit.
fn digit_of(c: char) -> (r: Option<u64>)
    ensures
        match r {
            Some(d) => is_digit(c) && d == digit_val(c),
            None => !is_digit(c),
        },
{
    match c {
        '0' => Some(0),
        '1' => Some(1),
        '2' => Some(2),
        '3' => Some(3),
        '4' => Some(4),
        '5' => Some(5),
        '6' => Some(6),
        '7' => Some(7),
        '8' => Some(8),
        '9' => Some(9),
        _ => None,
    }
}

/// Best-effort coercion of a string to a 64-bit number, with the same grammar
/// as `u64`'s own parser: optional `+`, digits, no overflow.
pub fn parse_u64(s: &str) -> (r: Option<u64>)
    ensures
        r == spec_parse_u64(s@),
{
    let n = s.unicode_len();
    let start: usize = if n > 0 && s.get_char(0) == '+' {
        1
    } else {
        0
    };
    let ghost body = parse_body(s@);
    assert(body =~= s@.subrange(start as int, n as int));
    if start == n {
        return None;
    }
    let mut acc: u64 = 0;
    let mut i: usize = start;
    while i < n
        invariant
            start <= i <= n,
            n == s@.len(),
            body == parse_body(s@),
            body =~= s@.subrange(start as int, n as int),
            all_digits(body.take(i - start)),
            acc == digits_val(body.take(i - start)),
        decreases n - i,
    {
        let c = s.get_char(i);
        let ghost prefix = body.take(i - start);
        assert(body.take(i + 1 - start).drop_last() =~= prefix);
        assert(body.take(i + 1 - start).last() == c);
        let d = match digit_of(c) {
            Some(d) => d,
            None => {
                assert(!is_digit(body[i - start]));
                return None;
            },
        };
        let next = match acc.checked_mul(10) {
            Some(m) => m.checked_add(d),
            None => None,
        };
        match next {
            Some(v) => {
                acc = v;
            },
            None => {
                assert(digits_val(body.take(i + 1 - start)) > u64::MAX);
                proof {
                    lemma_digits_val_prefix(body, i + 1 - start);
                }
                return None;
            },
        }
        i = i + 1;
    }
    assert(body.take(n - start) =~= body);
    Some(acc)
}

} // verus!

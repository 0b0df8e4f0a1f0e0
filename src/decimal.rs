//! Decimal text for 64-bit signed integers, as std renders and parses it.

use vstd::prelude::*;

verus! {

/// The ten decimal digit characters, in order of value.
pub open spec fn digit_chars() -> Seq<char> {
    seq!['0', '1', '2', '3', '4', '5', '6', '7', '8', '9']
}

pub open spec fn is_digit(c: char) -> bool {
    '0' <= c && c <= '9'
}

/// Value of one digit character.
pub open spec fn digit_value(c: char) -> int {
    c as int - '0' as int
}

/// Shortest decimal digit string of a natural number (no leading zeros).
pub open spec fn digits_of(n: nat) -> Seq<char>
    decreases n,
{
    if n < 10 {
        seq![digit_chars()[n as int]]
    } else {
        digits_of(n / 10).push(digit_chars()[(n % 10) as int])
    }
}

/// Decimal rendering of an integer: a minus sign for negatives, then digits.
pub open spec fn decimal_of(n: int) -> Seq<char> {
    if n < 0 {
        seq!['-'] + digits_of((-n) as nat)
    } else {
        digits_of(n as nat)
    }
}

/// Value of a sequence of digit characters, most significant first.
pub open spec fn digits_value(s: Seq<char>) -> int
    decreases s.len(),
{
    if s.len() == 0 {
        0
    } else {
        digits_value(s.drop_last()) * 10 + digit_value(s.last())
    }
}

pub open spec fn all_digits(s: Seq<char>) -> bool {
    forall|i: int| 0 <= i < s.len() ==> is_digit(#[trigger] s[i])
}

/// The integer that a sign (optional `+` or `-`) followed by at least one
/// digit denotes; `None` for any other text.
pub open spec fn signed_value(s: Seq<char>) -> Option<int> {
    if s.len() > 0 && (s[0] == '-' || s[0] == '+') {
        let rest = s.drop_first();
        if rest.len() > 0 && all_digits(rest) {
            if s[0] == '-' {
                Some(-digits_value(rest))
            } else {
                Some(digits_value(rest))
            }
        } else {
            None
        }
    } else if s.len() > 0 && all_digits(s) {
        Some(digits_value(s))
    } else {
        None
    }
}

/// What parsing text as an `i64` yields: the signed decimal value when the
/// text is one and the value fits in 64 bits, else nothing.
pub open spec fn parse_i64_spec(s: Seq<char>) -> Option<i64> {
    match signed_value(s) {
        Some(v) => if i64::MIN <= v <= i64::MAX {
            Some(v as i64)
        } else {
            None
        },
        None => None,
    }
}

proof fn lemma_digit_char(k: int)
    requires
        0 <= k < 10,
    ensures
        is_digit(digit_chars()[k]),
        digit_value(digit_chars()[k]) == k,
{
    if k == 0 {
        assert(digit_chars()[k] == '0');
    } else if k == 1 {
        assert(digit_chars()[k] == '1');
    } else if k == 2 {
        assert(digit_chars()[k] == '2');
    } else if k == 3 {
        assert(digit_chars()[k] == '3');
    } else if k == 4 {
        assert(digit_chars()[k] == '4');
    } else if k == 5 {
        assert(digit_chars()[k] == '5');
    } else if k == 6 {
        assert(digit_chars()[k] == '6');
    } else if k == 7 {
        assert(digit_chars()[k] == '7');
    } else if k == 8 {
        assert(digit_chars()[k] == '8');
    } else {
        assert(digit_chars()[k] == '9');
    }
}

proof fn lemma_digits_of(n: nat)
    ensures
        digits_of(n).len() > 0,
        all_digits(digits_of(n)),
        digits_value(digits_of(n)) == n,
    decreases n,
{
    if n < 10 {
        lemma_digit_char(n as int);
        let s = digits_of(n);
        assert(s.drop_last() =~= Seq::<char>::empty());
        assert(digits_value(Seq::<char>::empty()) == 0);
    } else {
        lemma_digits_of(n / 10);
        lemma_digit_char((n % 10) as int);
        let s = digits_of(n);
        assert(s.drop_last() =~= digits_of(n / 10));
        assert(s.last() == digit_chars()[(n % 10) as int]);
        assert(digits_value(s) == digits_value(digits_of(n / 10)) * 10 + digit_value(s.last()));
        assert((n / 10) * 10 + n % 10 == n) by (nonlinear_arith);
        assert forall|i: int| 0 <= i < s.len() implies is_digit(#[trigger] s[i]) by {
            if i < s.len() - 1 {
                assert(s[i] == digits_of(n / 10)[i]);
            }
        }
    }
}

/// Decimal text parses back: the rendering of any `i64` parses to itself.
pub proof fn lemma_parse_decimal_of(n: i64)
    ensures
        parse_i64_spec(decimal_of(n as int)) == Some(n),
{
    if n < 0 {
        let d = digits_of((-n) as nat);
        lemma_digits_of((-n) as nat);
        let s = seq!['-'] + d;
        assert(s[0] == '-');
        assert(s.drop_first() =~= d);
    } else {
        lemma_digits_of(n as nat);
        let s = digits_of(n as nat);
        assert(is_digit(s[0]));
    }
}

/// Relies on `<i64 as FromStr>::from_str`: an optional `+` or `-` followed by
/// one or more ASCII digits, in range, gives its value; anything else
/// (empty text, whitespace, other characters, overflow) is an error.
#[verifier::external_body]
pub(crate) fn parse_i64(s: &str) -> (r: Option<i64>)
    ensures
        r == parse_i64_spec(s@),
{
    s.parse::<i64>().ok()
}

/// Relies on `<i64 as ToString>::to_string`: the decimal rendering, with a
/// leading `-` for negative values and no leading zeros.
#[verifier::external_body]
pub(crate) fn format_i64(n: i64) -> (r: String)
    ensures
        r@ == decimal_of(n as int),
{
    n.to_string()
}

} // verus!

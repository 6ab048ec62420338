//! Character-level helpers on strings.
use vstd::prelude::*;
use vstd::string::*;

verus! {

/// Whether two strings hold the same characters.
pub fn str_eq(a: &str, b: &str) -> (r: bool)
    ensures
        r == (a@ == b@),
{
    let n = a.unicode_len();
    let m = b.unicode_len();
    if n != m {
        return false;
    }
    let mut i: usize = 0;
    while i < n
        invariant
            n == a@.len(),
            m == b@.len(),
            n == m,
            i <= n,
            a@.subrange(0, i as int) == b@.subrange(0, i as int),
        decreases n - i,
    {
        if a.get_char(i) != b.get_char(i) {
            return false;
        }
        proof {
            assert(a@.subrange(0, i + 1) =~= a@.subrange(0, i as int).push(a@[i as int]));
            assert(b@.subrange(0, i + 1) =~= b@.subrange(0, i as int).push(b@[i as int]));
        }
        i = i + 1;
    }
    proof {
        assert(a@ =~= a@.subrange(0, n as int));
        assert(b@ =~= b@.subrange(0, n as int));
    }
    true
}

/// Whether `p` is a prefix of `s`.
pub fn has_prefix(s: &str, p: &str) -> (r: bool)
    ensures
        r == p@.is_prefix_of(s@),
{
    let n = s.unicode_len();
    let m = p.unicode_len();
    if m > n {
        return false;
    }
    let mut i: usize = 0;
    while i < m
        invariant
            n == s@.len(),
            m == p@.len(),
            m <= n,
            i <= m,
            forall|j: int| 0 <= j < i ==> p@[j] == s@[j],
        decreases m - i,
    {
        if p.get_char(i) != s.get_char(i) {
            return false;
        }
        i = i + 1;
    }
    true
}

/// Whether two optional strings are both absent or hold the same characters.
pub fn opt_str_eq(a: &Option<String>, b: &Option<String>) -> (r: bool)
    ensures
        r == (opt_view(a) == opt_view(b)),
{
    match (a, b) {
        (Some(x), Some(y)) => str_eq(x.as_str(), y.as_str()),
        (None, None) => true,
        _ => false,
    }
}

/// The characters of an optional string.
pub open spec fn opt_view(a: &Option<String>) -> Option<Seq<char>> {
    match a {
        Some(s) => Some(s@),
        None => None,
    }
}

/// A copy of an optional string.
pub fn opt_clone(a: &Option<String>) -> (r: Option<String>)
    ensures
        opt_view(&r) == opt_view(a),
{
    match a {
        Some(s) => Some(s.clone()),
        None => None,
    }
}

/// An answer to an optional prompt: nothing for an empty answer.
pub fn non_empty(s: String) -> (r: Option<String>)
    ensures
        opt_view(&r) == (if s@.len() == 0 {
            None
        } else {
            Some(s@)
        }),
{
    if s.as_str().unicode_len() == 0 {
        None
    } else {
        Some(s)
    }
}

/// Whether a character is an ASCII decimal digit.
pub open spec fn is_digit(c: char) -> bool {
    '0' <= c && c <= '9'
}

/// A non-empty run of decimal digits.
pub open spec fn all_digits(s: Seq<char>) -> bool {
    s.len() > 0 && forall|i: int| 0 <= i < s.len() ==> is_digit(#[trigger] s[i])
}

/// The value of a run of decimal digits, most significant first.
pub open spec fn digits_value(s: Seq<char>) -> int
    decreases s.len(),
{
    if s.len() == 0 {
        0
    } else {
        digits_value(s.drop_last()) * 10 + (s.last() as int - '0' as int)
    }
}

/// The integer written in `s`: an optional `+` or `-` followed by decimal digits,
/// with nothing before or after.
pub open spec fn integer_literal(s: Seq<char>) -> Option<int> {
    if s.len() > 0 && s[0] == '-' && all_digits(s.drop_first()) {
        Some(-digits_value(s.drop_first()))
    } else if s.len() > 0 && s[0] == '+' && all_digits(s.drop_first()) {
        Some(digits_value(s.drop_first()))
    } else if all_digits(s) {
        Some(digits_value(s))
    } else {
        None
    }
}

/// The `i32` written in `s`, if `s` is an integer literal whose value fits.
pub open spec fn i32_literal(s: Seq<char>) -> Option<i32> {
    match integer_literal(s) {
        Some(v) => if i32::MIN <= v <= i32::MAX {
            Some(v as i32)
        } else {
            None
        },
        None => None,
    }
}

/// The `i32` written in `s` (see `i32_literal`): an optional sign followed by
/// decimal digits, with a value that fits.
pub fn parse_i32(s: &str) -> (r: Option<i32>)
    ensures
        r == i32_literal(s@),
{
    let ghost v = s@;
    let n = s.unicode_len();
    if n == 0 {
        return None;
    }
    let first = s.get_char(0);
    let negative = first == '-';
    let start: usize = if first == '-' || first == '+' {
        1
    } else {
        0
    };
    if start == n {
        proof {
            assert(!all_digits(v.drop_first()));
            assert(!is_digit(v[0]));
        }
        return None;
    }
    // Once the value exceeds 2^31 it fits no i32 whatever follows.
    let limit: i64 = 2147483648;
    let mut value: i64 = 0;
    let mut big = false;
    let mut i: usize = start;
    while i < n
        invariant
            n == v.len(),
            v == s@,
            start <= i <= n,
            start < n,
            start <= 1,
            start == 1 <==> (v[0] == '-' || v[0] == '+'),
            negative == (v[0] == '-'),
            limit == 2147483648,
            forall|j: int| start <= j < i ==> is_digit(#[trigger] v[j]),
            !big ==> 0 <= value <= limit && value == digits_value(v.subrange(start as int, i as int)),
            big ==> digits_value(v.subrange(start as int, i as int)) > limit,
        decreases n - i,
    {
        let c = s.get_char(i);
        if !('0' <= c && c <= '9') {
            proof {
                assert(!is_digit(v[i as int]));
                if i >= 1 {
                    assert(v.drop_first()[i - 1] == v[i as int]);
                }
            }
            return None;
        }
        let ghost prev = digits_value(v.subrange(start as int, i as int));
        proof {
            assert(v.subrange(start as int, i + 1).drop_last() =~= v.subrange(start as int, i as int));
        }
        let d: i64 = c as i64 - '0' as i64;
        if !big {
            value = value * 10 + d;
            if value > limit {
                big = true;
            }
        } else {
            assert(prev * 10 + d > limit) by (nonlinear_arith)
                requires
                    prev > limit,
                    d >= 0,
                    limit > 0,
            ;
        }
        i = i + 1;
    }
    proof {
        if start == 1 {
            assert(v.drop_first() =~= v.subrange(1, n as int));
            assert(!is_digit(v[0]));
        } else {
            assert(v =~= v.subrange(0, n as int));
        }
    }
    if big {
        None
    } else if negative {
        Some((0 - value) as i32)
    } else if value > 2147483647 {
        None
    } else {
        Some(value as i32)
    }
}

} // verus!

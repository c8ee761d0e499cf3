//! Character-level text handling shared by the amount parser and printer.
use vstd::prelude::*;

use vstd::std_specs::iter::IteratorSpec;

verus! {

broadcast use vstd::string::group_string_axioms;

/// The characters with the Unicode `White_Space` property.
pub open spec fn is_white_space(c: char) -> bool {
    ||| '\u{9}' <= c <= '\u{D}'
    ||| c == ' '
    ||| c == '\u{85}'
    ||| c == '\u{A0}'
    ||| c == '\u{1680}'
    ||| '\u{2000}' <= c <= '\u{200A}'
    ||| c == '\u{2028}'
    ||| c == '\u{2029}'
    ||| c == '\u{202F}'
    ||| c == '\u{205F}'
    ||| c == '\u{3000}'
}

/// `s` without its leading white space.
pub open spec fn trim_start(s: Seq<char>) -> Seq<char>
    decreases s.len(),
{
    if s.len() > 0 && is_white_space(s[0]) {
        trim_start(s.drop_first())
    } else {
        s
    }
}

/// `s` without its trailing white space.
pub open spec fn trim_end(s: Seq<char>) -> Seq<char>
    decreases s.len(),
{
    if s.len() > 0 && is_white_space(s.last()) {
        trim_end(s.drop_last())
    } else {
        s
    }
}

/// `s` without leading and trailing white space.
pub open spec fn trim(s: Seq<char>) -> Seq<char> {
    trim_end(trim_start(s))
}

/// Tests a character for white space.
pub(crate) fn char_is_white_space(c: char) -> (b: bool)
    ensures
        b == is_white_space(c),
{
    ('\u{9}' <= c && c <= '\u{D}') || c == ' ' || c == '\u{85}' || c == '\u{A0}' || c == '\u{1680}'
        || ('\u{2000}' <= c && c <= '\u{200A}') || c == '\u{2028}' || c == '\u{2029}' || c
        == '\u{202F}' || c == '\u{205F}' || c == '\u{3000}'
}

/// The characters of `s`, in order.
pub(crate) fn chars_of(s: &str) -> (chars: Vec<char>)
    ensures
        chars@ == s@,
{
    let mut chars: Vec<char> = Vec::new();
    for c in it: s.chars()
        invariant
            it.seq() == s@,
            chars@ == it.seq().take(it.index()),
    {
        chars.push(c);
        proof {
            assert(chars@ =~= it.seq().take(it.index() + 1));
        }
    }
    proof {
        assert(chars@ =~= s@);
    }
    chars
}

/// The bounds `(lo, hi)` of the trimmed part of `s[start..end]`.
pub(crate) fn trim_bounds(s: &Vec<char>, start: usize, end: usize) -> (bounds: (usize, usize))
    requires
        start <= end <= s@.len(),
    ensures
        start <= bounds.0 <= bounds.1 <= end,
        s@.subrange(bounds.0 as int, bounds.1 as int) == trim(s@.subrange(start as int, end as int)),
{
    let mut lo = start;
    while lo < end && char_is_white_space(s[lo])
        invariant
            start <= lo <= end <= s@.len(),
            trim_start(s@.subrange(start as int, end as int)) == trim_start(s@.subrange(lo as int, end as int)),
        decreases end - lo,
    {
        proof {
            assert(s@.subrange(lo as int, end as int).drop_first() =~= s@.subrange(lo + 1, end as int));
        }
        lo = lo + 1;
    }
    let mut hi = end;
    while hi > lo && char_is_white_space(s[hi - 1])
        invariant
            lo <= hi <= end <= s@.len(),
            trim(s@.subrange(start as int, end as int)) == trim_end(s@.subrange(lo as int, hi as int)),
        decreases hi - lo,
    {
        proof {
            assert(s@.subrange(lo as int, hi as int).drop_last() =~= s@.subrange(lo as int, hi - 1));
        }
        hi = hi - 1;
    }
    (lo, hi)
}

/// An ASCII decimal digit.
pub open spec fn is_digit(c: char) -> bool {
    '0' <= c <= '9'
}

/// The value of a decimal digit.
pub open spec fn digit_value(c: char) -> int {
    c as int - '0' as int
}

/// Every character of `d` is a decimal digit.
pub open spec fn all_digits(d: Seq<char>) -> bool {
    forall|i: int| 0 <= i < d.len() ==> #[trigger] is_digit(d[i])
}

/// The value of the decimal numeral `d` (most significant digit first).
pub open spec fn digits_value(d: Seq<char>) -> int
    decreases d.len(),
{
    if d.len() == 0 {
        0
    } else {
        digits_value(d.drop_last()) * 10 + digit_value(d.last())
    }
}

/// What `str::parse::<i64>` gives for `t`: an optional `+` or `-`, then one
/// or more decimal digits, whose value must fit in an `i64`.
pub open spec fn parse_i64_spec(t: Seq<char>) -> Option<i64> {
    if t.len() == 0 {
        None
    } else {
        let negative = t[0] == '-';
        let digits = if t[0] == '-' || t[0] == '+' {
            t.drop_first()
        } else {
            t
        };
        let magnitude = digits_value(digits);
        let value = if negative {
            -magnitude
        } else {
            magnitude
        };
        if digits.len() == 0 || !all_digits(digits) {
            None
        } else if i64::MIN <= value <= i64::MAX {
            Some(value as i64)
        } else {
            None
        }
    }
}

/// A numeral has a non-negative value.
pub proof fn lemma_digits_value_nonnegative(d: Seq<char>)
    requires
        all_digits(d),
    ensures
        digits_value(d) >= 0,
    decreases d.len(),
{
    if d.len() > 0 {
        assert(is_digit(d[d.len() - 1]));
        assert(all_digits(d.drop_last())) by {
            assert forall|i: int| 0 <= i < d.drop_last().len() implies #[trigger] is_digit(
                d.drop_last()[i],
            ) by {
                assert(is_digit(d[i]));
            }
        }
        lemma_digits_value_nonnegative(d.drop_last());
    }
}

/// Parses `s[lo..hi]` as `str::parse::<i64>` does.
pub(crate) fn parse_i64(s: &Vec<char>, lo: usize, hi: usize) -> (value: Option<i64>)
    requires
        lo <= hi <= s@.len(),
    ensures
        value == parse_i64_spec(s@.subrange(lo as int, hi as int)),
{
    let ghost t = s@.subrange(lo as int, hi as int);
    if lo == hi {
        return None;
    }
    let negative = s[lo] == '-';
    let start = if s[lo] == '-' || s[lo] == '+' {
        lo + 1
    } else {
        lo
    };
    let ghost digits = s@.subrange(start as int, hi as int);
    proof {
        if s[lo as int] == '-' || s[lo as int] == '+' {
            assert(digits =~= t.drop_first());
        } else {
            assert(digits =~= t);
        }
    }
    if start == hi {
        return None;
    }
    // The magnitude read so far, saturated just above the largest magnitude
    // that an i64 can take.
    let cap: u128 = 9223372036854775809;
    let mut magnitude: u128 = 0;
    let mut i = start;
    while i < hi
        invariant
            lo <= start <= i <= hi <= s@.len(),
            cap == 9223372036854775809,
            t == s@.subrange(lo as int, hi as int),
            digits == s@.subrange(start as int, hi as int),
            t.len() > 0,
            digits == (if t[0] == '-' || t[0] == '+' { t.drop_first() } else { t }),
            digits.len() > 0,
            all_digits(s@.subrange(start as int, i as int)),
            digits_value(s@.subrange(start as int, i as int)) >= 0,
            magnitude == (if digits_value(s@.subrange(start as int, i as int)) < cap {
                digits_value(s@.subrange(start as int, i as int))
            } else {
                cap as int
            }),
        decreases hi - i,
    {
        let c = s[i];
        if !('0' <= c && c <= '9') {
            proof {
                assert(digits[i - start] == c);
                assert(!is_digit(digits[i - start]));
                assert(!all_digits(digits));
            }
            return None;
        }
        let ghost prefix = s@.subrange(start as int, i + 1);
        proof {
            assert(prefix.drop_last() =~= s@.subrange(start as int, i as int));
            assert(prefix.last() == c);
            assert(all_digits(prefix)) by {
                assert forall|k: int| 0 <= k < prefix.len() implies #[trigger] is_digit(prefix[k]) by {
                    if k < prefix.len() - 1 {
                        assert(prefix[k] == s@.subrange(start as int, i as int)[k]);
                    }
                }
            }
        }
        let d = (c as u32 - '0' as u32) as u128;
        if magnitude < cap {
            let next = magnitude * 10 + d;
            magnitude = if next < cap { next } else { cap };
        }
        i = i + 1;
    }
    proof {
        assert(s@.subrange(start as int, hi as int) =~= digits);
    }
    if negative {
        if magnitude <= 9223372036854775808 {
            Some((0 - magnitude as i128) as i64)
        } else {
            None
        }
    } else {
        if magnitude <= 9223372036854775807 {
            Some(magnitude as i64)
        } else {
            None
        }
    }
}

/// How many bytes the UTF-8 encoding of `c` takes.
pub open spec fn char_utf8_len(c: char) -> nat {
    if (c as u32) < 0x80 {
        1
    } else if (c as u32) < 0x800 {
        2
    } else if (c as u32) < 0x10000 {
        3
    } else {
        4
    }
}

/// How many bytes the UTF-8 encoding of `s` takes (what `str::len` gives).
pub open spec fn utf8_len(s: Seq<char>) -> nat
    decreases s.len(),
{
    if s.len() == 0 {
        0
    } else {
        utf8_len(s.drop_last()) + char_utf8_len(s.last())
    }
}

/// The UTF-8 length of `s[lo..hi]`, or 5 if it is more than 4.
pub(crate) fn utf8_len_up_to_5(s: &Vec<char>, lo: usize, hi: usize) -> (n: usize)
    requires
        lo <= hi <= s@.len(),
    ensures
        n == (if utf8_len(s@.subrange(lo as int, hi as int)) <= 4 {
            utf8_len(s@.subrange(lo as int, hi as int))
        } else {
            5
        }),
{
    let mut n: usize = 0;
    let mut i = lo;
    while i < hi
        invariant
            lo <= i <= hi <= s@.len(),
            n == (if utf8_len(s@.subrange(lo as int, i as int)) <= 4 {
                utf8_len(s@.subrange(lo as int, i as int))
            } else {
                5
            }),
        decreases hi - i,
    {
        let ghost prefix = s@.subrange(lo as int, i + 1);
        proof {
            assert(prefix.drop_last() =~= s@.subrange(lo as int, i as int));
        }
        let code = s[i] as u32;
        let width: usize = if code < 0x80 {
            1
        } else if code < 0x800 {
            2
        } else if code < 0x10000 {
            3
        } else {
            4
        };
        if n <= 4 {
            n = if n + width <= 4 { n + width } else { 5 };
        }
        i = i + 1;
    }
    n
}

/// Whether `a` and `b` hold the same characters.
pub(crate) fn chars_equal(a: &str, b: &str) -> (equal: bool)
    ensures
        equal == (a@ == b@),
{
    let x = chars_of(a);
    let y = chars_of(b);
    if x.len() != y.len() {
        return false;
    }
    let mut i: usize = 0;
    while i < x.len()
        invariant
            x@ == a@,
            y@ == b@,
            x@.len() == y@.len(),
            0 <= i <= x@.len(),
            forall|j: int| 0 <= j < i ==> x@[j] == y@[j],
        decreases x@.len() - i,
    {
        if x[i] != y[i] {
            return false;
        }
        i = i + 1;
    }
    proof {
        assert(x@ =~= y@);
    }
    true
}

/// A run of one or more decimal digits, with no sign, whose value fits in
/// an `i64`: its value, or `None`.
pub open spec fn parse_digits_spec(t: Seq<char>) -> Option<i64> {
    if t.len() == 0 || !all_digits(t) {
        None
    } else if digits_value(t) <= i64::MAX {
        Some(digits_value(t) as i64)
    } else {
        None
    }
}

/// Reads `s[lo..hi]` as an unsigned run of decimal digits.
pub(crate) fn parse_digits(s: &Vec<char>, lo: usize, hi: usize) -> (value: Option<i64>)
    requires
        lo <= hi <= s@.len(),
    ensures
        value == parse_digits_spec(s@.subrange(lo as int, hi as int)),
{
    let ghost t = s@.subrange(lo as int, hi as int);
    if lo < hi && (s[lo] == '-' || s[lo] == '+') {
        proof {
            assert(t[0] == s@[lo as int]);
            assert(!is_digit(t[0]));
        }
        return None;
    }
    let value = parse_i64(s, lo, hi);
    proof {
        if t.len() > 0 {
            assert(t[0] == s@[lo as int]);
            if all_digits(t) {
                lemma_digits_value_nonnegative(t);
            }
        }
    }
    value
}

} // verus!

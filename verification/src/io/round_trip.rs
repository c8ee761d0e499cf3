//! Reading back what the amount printer writes.
use vstd::prelude::*;

use crate::io::csv_input::{amount_parts, is_first_dot, parse_amount_spec, split_at_dot, zeros};
use crate::io::csv_output::{amount_text, decimal, digit_char, four_digits, trim_trailing_zeros};
use crate::io::text::{
    all_digits, digit_value, digits_value, is_digit, is_white_space, parse_digits_spec, trim,
    utf8_len,
};

verus! {

/// The character of a digit is a digit of that value.
pub proof fn lemma_digit_char(d: int)
    requires
        0 <= d < 10,
    ensures
        is_digit(digit_char(d)),
        digit_value(digit_char(d)) == d,
        digit_char(d) != '.',
        digit_char(d) != '-',
        digit_char(d) != '+',
        !is_white_space(digit_char(d)),
{
    assert(digit_char(d) as int == 48 + d);
}

/// A numeral printed by `decimal` is a non-empty run of digits whose value
/// is the number printed.
pub proof fn lemma_decimal_reads_back(n: nat)
    ensures
        decimal(n).len() >= 1,
        all_digits(decimal(n)),
        digits_value(decimal(n)) == n,
    decreases n,
{
    if n < 10 {
        lemma_digit_char(n as int);
        let d = decimal(n);
        assert(d == seq![digit_char(n as int)]);
        assert(d.drop_last() =~= Seq::<char>::empty());
        assert(digits_value(Seq::<char>::empty()) == 0);
        assert(d.last() == digit_char(n as int));
        assert(is_digit(d[0]));
    } else {
        lemma_decimal_reads_back(n / 10);
        lemma_digit_char((n % 10) as int);
        let d = decimal(n);
        let prefix = decimal(n / 10);
        assert(d.drop_last() =~= prefix);
        assert(d.last() == digit_char((n % 10) as int));
        assert(digits_value(d) == digits_value(prefix) * 10 + (n % 10));
        assert forall|i: int| 0 <= i < d.len() implies #[trigger] is_digit(d[i]) by {
            if i < prefix.len() {
                assert(is_digit(prefix[i]));
            }
        }
    }
}

/// A run of ASCII digits takes one byte per character.
pub proof fn lemma_digits_utf8_len(d: Seq<char>)
    requires
        all_digits(d),
    ensures
        utf8_len(d) == d.len(),
    decreases d.len(),
{
    if d.len() > 0 {
        assert(is_digit(d[d.len() - 1]));
        assert(all_digits(d.drop_last())) by {
            assert forall|i: int| 0 <= i < d.drop_last().len() implies #[trigger] is_digit(d.drop_last()[i]) by {
                assert(is_digit(d[i]));
            }
        }
        lemma_digits_utf8_len(d.drop_last());
    }
}

/// The four digits of `f` are digits, and read back as `f`.
pub proof fn lemma_four_digits_read_back(f: nat)
    requires
        f < 10000,
    ensures
        all_digits(four_digits(f)),
        digits_value(four_digits(f)) == f,
{
    let digits = four_digits(f);
    let (a, b, c, d) = ((f / 1000) as int, ((f / 100) % 10) as int, ((f / 10) % 10) as int, (f % 10) as int);
    lemma_digit_char(a);
    lemma_digit_char(b);
    lemma_digit_char(c);
    lemma_digit_char(d);
    assert(all_digits(digits)) by {
        assert forall|i: int| 0 <= i < digits.len() implies #[trigger] is_digit(digits[i]) by {
            if i == 0 {
            } else if i == 1 {
            } else if i == 2 {
            } else {
            }
        }
    }
    let d3 = digits.drop_last();
    let d2 = d3.drop_last();
    let d1 = d2.drop_last();
    assert(d3 =~= seq![digits[0], digits[1], digits[2]]);
    assert(d2 =~= seq![digits[0], digits[1]]);
    assert(d1 =~= seq![digits[0]]);
    assert(d1.drop_last() =~= Seq::<char>::empty());
    assert(digits_value(Seq::<char>::empty()) == 0);
    assert(d1.last() == digits[0]);
    assert(digits_value(d1) == a);
    assert(digits_value(d2) == a * 10 + b);
    assert(digits_value(d3) == (a * 10 + b) * 10 + c);
    assert(digits_value(digits) == ((a * 10 + b) * 10 + c) * 10 + d);
    assert(f == a * 1000 + b * 100 + c * 10 + d);
}

/// The four digits of `f` read back as `f`, and the trailing zeros that
/// the printer drops are the zeros that the parser pads back.
pub proof fn lemma_fraction_reads_back(f: nat)
    requires
        0 < f < 10000,
    ensures
        ({
            let kept = trim_trailing_zeros(four_digits(f));
            &&& 1 <= kept.len() <= 4
            &&& all_digits(kept)
            &&& kept + zeros(4 - kept.len()) == four_digits(f)
            &&& all_digits(four_digits(f))
            &&& digits_value(four_digits(f)) == f
        }),
{
    lemma_four_digits_read_back(f);
    let digits = four_digits(f);
    reveal_with_fuel(trim_trailing_zeros, 4);
    assert(digits.drop_last() =~= seq![digits[0], digits[1], digits[2]]);
    assert(digits.drop_last().drop_last() =~= seq![digits[0], digits[1]]);
    assert(digits.drop_last().drop_last().drop_last() =~= seq![digits[0]]);
    assert(digits.drop_last().drop_last().drop_last().drop_last() =~= Seq::<char>::empty());
    let kept = trim_trailing_zeros(digits);
    assert(kept + zeros(4 - kept.len()) =~= digits);
    assert(all_digits(kept)) by {
        assert forall|i: int| 0 <= i < kept.len() implies #[trigger] is_digit(kept[i]) by {
            assert(kept[i] == digits[i]);
        }
    }
}

/// Text without white space at either end is its own trim.
pub proof fn lemma_trim_untouched(s: Seq<char>)
    requires
        s.len() > 0,
        !is_white_space(s[0]),
        !is_white_space(s.last()),
    ensures
        trim(s) == s,
{
}

/// The magnitude of an amount.
pub open spec fn magnitude_of(amount: i32) -> nat {
    (if amount < 0 {
        -amount
    } else {
        amount as int
    }) as nat
}

/// The fractional text that the printer writes for `f` ten-thousandths.
pub open spec fn fraction_text(f: nat) -> Seq<char> {
    if f == 0 {
        Seq::<char>::empty()
    } else {
        trim_trailing_zeros(four_digits(f))
    }
}

/// A run of digits followed, when `frac` is not empty, by `.` and `frac`
/// splits at that `.` into the two runs.
pub proof fn lemma_split_printed_body(whole: Seq<char>, frac: Seq<char>)
    requires
        whole.len() >= 1,
        all_digits(whole),
    ensures
        frac.len() == 0 ==> split_at_dot(whole) == (whole, Seq::<char>::empty()),
        frac.len() > 0 ==> split_at_dot(whole + seq!['.'] + frac) == (whole, frac),
{
    if frac.len() == 0 {
        assert forall|k: int| !is_first_dot(whole, k) by {
            if 0 <= k < whole.len() {
                assert(is_digit(whole[k]));
            }
        }
    } else {
        let body = whole + seq!['.'] + frac;
        let k = whole.len() as int;
        assert(is_first_dot(body, k)) by {
            assert forall|j: int| 0 <= j < k implies body[j] != '.' by {
                assert(is_digit(whole[j]));
            }
        }
        let c = choose|c: int| is_first_dot(body, c);
        assert(c == k) by {
            if c < k {
                assert(is_digit(whole[c]));
            }
            if c > k {
                assert(body[k] == '.');
            }
        }
        assert(body.take(k) =~= whole);
        assert(body.skip(k + 1) =~= frac);
    }
}

/// The printed text of an amount splits into its sign, its whole units and
/// its fractional text.
pub proof fn lemma_printed_parts(amount: i32)
    ensures
        amount_parts(amount_text(amount)) == (
            amount < 0,
            decimal(magnitude_of(amount) / 10000),
            fraction_text(magnitude_of(amount) % 10000),
        ),
{
    let text = amount_text(amount);
    let units = magnitude_of(amount) / 10000;
    let fraction = magnitude_of(amount) % 10000;
    let sign = if amount < 0 {
        seq!['-']
    } else {
        Seq::<char>::empty()
    };
    lemma_decimal_reads_back(units);
    let whole = decimal(units);
    let frac = fraction_text(fraction);
    let body = if fraction == 0 {
        whole
    } else {
        whole + seq!['.'] + frac
    };
    assert(text =~= sign + body);
    assert(is_digit(whole[0]));
    assert(!is_white_space(whole[0]));
    if fraction != 0 {
        lemma_fraction_reads_back(fraction);
        assert(is_digit(frac[frac.len() - 1]));
        assert(text.last() == frac.last());
    } else {
        assert(is_digit(whole[whole.len() - 1]));
        assert(text.last() == whole.last());
    }
    lemma_trim_untouched(text);
    if amount < 0 {
        assert(text.drop_first() =~= body);
    } else {
        assert(text =~= body);
    }
    lemma_split_printed_body(whole, frac);
}

/// Parsing undoes printing: the text that `convert_amount_4dp` writes for
/// an amount is read back by `parse_amount_4dp` as that same amount.
pub proof fn lemma_parse_undoes_format(amount: i32)
    ensures
        parse_amount_spec(amount_text(amount)) == Ok::<i32, Seq<char>>(amount),
{
    let units = magnitude_of(amount) / 10000;
    let fraction = magnitude_of(amount) % 10000;
    let frac = fraction_text(fraction);
    lemma_printed_parts(amount);
    lemma_decimal_reads_back(units);
    lemma_digit_char(0);
    assert(decimal(units)[0] != '-' && decimal(units)[0] != '+') by {
        assert(is_digit(decimal(units)[0]));
    }
    assert(parse_digits_spec(decimal(units)) == Some(units as i64));
    if fraction == 0 {
        let padded = frac + zeros(4);
        assert(padded =~= seq!['0', '0', '0', '0']);
        reveal_with_fuel(digits_value, 5);
        assert(padded.drop_last() =~= seq!['0', '0', '0']);
        assert(padded.drop_last().drop_last() =~= seq!['0', '0']);
        assert(padded.drop_last().drop_last().drop_last() =~= seq!['0']);
        assert(padded.drop_last().drop_last().drop_last().drop_last() =~= Seq::<char>::empty());
        assert(all_digits(padded));
        assert(parse_digits_spec(padded) == Some(0i64));
    } else {
        lemma_fraction_reads_back(fraction);
        lemma_digits_utf8_len(frac);
        let padded = frac + zeros(4 - utf8_len(frac));
        assert(padded == four_digits(fraction));
        assert(padded[0] != '-' && padded[0] != '+') by {
            assert(is_digit(padded[0]));
        }
        assert(parse_digits_spec(padded) == Some(fraction as i64));
    }
}

} // verus!

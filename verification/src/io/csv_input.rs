use vstd::prelude::*;

use vstd::std_specs::convert::TryFromSpecImpl;

use crate::domain::amount::Amount;
use crate::domain::transaction::Transaction;
use crate::error::app_error::AppError;
use crate::io::record::CsvTransactionRecord;
use crate::io::text::{
    chars_of, chars_equal, parse_digits, parse_digits_spec, trim, trim_bounds, utf8_len, utf8_len_up_to_5,
};

verus! {

broadcast use vstd::string::group_string_axioms;

/// `k` is the position of the first `.` in `body`.
pub open spec fn is_first_dot(body: Seq<char>, k: int) -> bool {
    &&& 0 <= k < body.len()
    &&& body[k] == '.'
    &&& forall|j: int| 0 <= j < k ==> body[j] != '.'
}

/// `body` split at its first `.` into the whole and the fractional text; the
/// fractional text is empty when there is no `.`.
pub open spec fn split_at_dot(body: Seq<char>) -> (Seq<char>, Seq<char>) {
    if exists|k: int| is_first_dot(body, k) {
        let k = choose|k: int| is_first_dot(body, k);
        (body.take(k), body.skip(k + 1))
    } else {
        (body, Seq::empty())
    }
}

/// `n` zero digits.
pub open spec fn zeros(n: int) -> Seq<char> {
    Seq::new(n as nat, |i: int| '0')
}

/// The parts of the amount text `s`: after trimming white space, whether
/// it starts with `-`, then (past one leading `-` or `+`) the text before
/// the first `.` and the text after it.
pub open spec fn amount_parts(s: Seq<char>) -> (bool, Seq<char>, Seq<char>) {
    let t = trim(s);
    let negative = t.len() > 0 && t[0] == '-';
    let body = if t.len() > 0 && (t[0] == '-' || t[0] == '+') {
        t.drop_first()
    } else {
        t
    };
    (negative, split_at_dot(body).0, split_at_dot(body).1)
}

/// What the amount text `s` denotes in ten-thousandths, or why it is
/// refused. Only the leading `-` or `+` is a sign: the whole text must be
/// one or more digits, and the fractional text (at most four bytes) must be
/// digits, padded with zeros to four. So `"--1"` and `"1.-5"` are refused.
pub open spec fn parse_amount_spec(s: Seq<char>) -> Result<i32, Seq<char>> {
    let negative = amount_parts(s).0;
    let whole_text = amount_parts(s).1;
    let frac_text = amount_parts(s).2;
    if utf8_len(frac_text) > 4 {
        Err("too many decimal places (max 4)"@)
    } else {
        match parse_digits_spec(whole_text) {
            None => Err("invalid whole part"@),
            Some(whole) => match parse_digits_spec(frac_text + zeros(4 - utf8_len(frac_text))) {
                None => Err("invalid fractional part"@),
                Some(frac) => {
                    let value = if negative {
                        -(whole * 10000 + frac)
                    } else {
                        whole * 10000 + frac
                    };
                    if !(i64::MIN <= whole * 10000 <= i64::MAX) {
                        Err("overflow"@)
                    } else if !(i32::MIN <= value <= i32::MAX) {
                        Err("out of i32 range"@)
                    } else {
                        Ok(value as i32)
                    }
                },
            },
        }
    }
}

/// Locates the parts of an amount text: the sign, and the bounds of the
/// whole and fractional texts.
fn locate_amount_parts(chars: &Vec<char>) -> (parts: (bool, usize, usize, usize, usize))
    ensures
        parts.1 <= parts.2 <= parts.3 <= parts.4 <= chars@.len(),
        amount_parts(chars@) == (
            parts.0,
            chars@.subrange(parts.1 as int, parts.2 as int),
            chars@.subrange(parts.3 as int, parts.4 as int),
        ),
{
    let (lo, hi) = trim_bounds(chars, 0, chars.len());
    let ghost t = chars@.subrange(lo as int, hi as int);
    proof {
        assert(chars@.subrange(0, chars@.len() as int) =~= chars@);
    }
    let negative = lo < hi && chars[lo] == '-';
    let start = if lo < hi && (chars[lo] == '-' || chars[lo] == '+') {
        lo + 1
    } else {
        lo
    };
    let ghost body = chars@.subrange(start as int, hi as int);
    proof {
        if lo < hi && (chars@[lo as int] == '-' || chars@[lo as int] == '+') {
            assert(body =~= t.drop_first());
        } else {
            assert(body =~= t);
        }
    }
    let mut dot = start;
    while dot < hi && chars[dot] != '.'
        invariant
            start <= dot <= hi <= chars@.len(),
            body == chars@.subrange(start as int, hi as int),
            forall|j: int| 0 <= j < dot - start ==> body[j] != '.',
        decreases hi - dot,
    {
        dot = dot + 1;
    }
    let frac_start = if dot < hi {
        dot + 1
    } else {
        hi
    };
    proof {
        if dot < hi {
            let k = (dot - start) as int;
            assert(is_first_dot(body, k));
            let c = choose|k: int| is_first_dot(body, k);
            assert(c == k) by {
                if c < k {
                    assert(body[c] != '.');
                } else if c > k {
                    assert(body[k] != '.');
                }
            }
        } else {
            assert(!exists|k: int| is_first_dot(body, k));
        }
        assert(split_at_dot(body).0 =~= chars@.subrange(start as int, dot as int));
        assert(split_at_dot(body).1 =~= chars@.subrange(frac_start as int, hi as int));
    }
    (negative, start, dot, frac_start, hi)
}

/// `chars[lo..hi]` followed by `4 - width` zeros.
fn padded_fraction(chars: &Vec<char>, lo: usize, hi: usize, width: usize) -> (padded: Vec<char>)
    requires
        lo <= hi <= chars@.len(),
        width <= 4,
    ensures
        padded@ == chars@.subrange(lo as int, hi as int) + zeros(4 - width),
{
    let mut padded: Vec<char> = Vec::new();
    let mut i = lo;
    while i < hi
        invariant
            lo <= i <= hi <= chars@.len(),
            padded@ == chars@.subrange(lo as int, i as int),
        decreases hi - i,
    {
        padded.push(chars[i]);
        proof {
            assert(padded@ =~= chars@.subrange(lo as int, i + 1));
        }
        i = i + 1;
    }
    let ghost text = padded@;
    let mut filled = width;
    while filled < 4
        invariant
            width <= filled <= 4,
            padded@ == text + zeros(filled - width),
        decreases 4 - filled,
    {
        padded.push('0');
        proof {
            assert(padded@ =~= text + zeros(filled + 1 - width));
        }
        filled = filled + 1;
    }
    padded
}

/// Reads an amount with up to four decimal places, such as `1`, `-1.5` or
/// `1.2345`, as ten-thousandths; a text of any other form is refused.
pub fn parse_amount_4dp(s: &str) -> (result: Result<Amount, String>)
    ensures
        match result {
            Ok(amount) => parse_amount_spec(s@) == Ok::<i32, Seq<char>>(amount),
            Err(message) => parse_amount_spec(s@) == Err::<i32, Seq<char>>(message@),
        },
{
    let chars = chars_of(s);
    let (negative, whole_lo, whole_hi, frac_lo, frac_hi) = locate_amount_parts(&chars);
    let frac_len = utf8_len_up_to_5(&chars, frac_lo, frac_hi);
    if frac_len > 4 {
        return Err("too many decimal places (max 4)".to_string());
    }
    let whole = match parse_digits(&chars, whole_lo, whole_hi) {
        Some(w) => w,
        None => {
            return Err("invalid whole part".to_string());
        },
    };
    let frac_chars = padded_fraction(&chars, frac_lo, frac_hi, frac_len);
    proof {
        assert(frac_chars@.subrange(0, frac_chars@.len() as int) =~= frac_chars@);
    }
    let frac = match parse_digits(&frac_chars, 0, frac_chars.len()) {
        Some(f) => f,
        None => {
            return Err("invalid fractional part".to_string());
        },
    };
    let scaled_whole = match whole.checked_mul(10_000) {
        Some(v) => v,
        None => {
            return Err("overflow".to_string());
        },
    };
    let magnitude = scaled_whole as i128 + frac as i128;
    let scaled = if negative {
        -magnitude
    } else {
        magnitude
    };
    if scaled < i32::MIN as i128 || scaled > i32::MAX as i128 {
        return Err("out of i32 range".to_string());
    }
    Ok(scaled as i32)
}

/// The amount of an input row: its parsed text, or 0 when the text is
/// missing or refused.
pub open spec fn amount_of(amount: Option<String>) -> i32 {
    match amount {
        None => 0,
        Some(a) => match parse_amount_spec(a@) {
            Ok(v) => v,
            Err(_) => 0,
        },
    }
}

/// The transaction an input row stands for, by its type text; any other
/// type is refused.
pub open spec fn transaction_of(raw: CsvTransactionRecord) -> Result<Transaction, AppError> {
    let client_id = raw.client;
    let tx_id = raw.tx;
    let amount = amount_of(raw.amount);
    if raw.tx_type@ == "deposit"@ {
        Ok(Transaction::Deposit { client_id, tx_id, amount })
    } else if raw.tx_type@ == "withdrawal"@ {
        Ok(Transaction::Withdrawal { client_id, tx_id, amount })
    } else if raw.tx_type@ == "dispute"@ {
        Ok(Transaction::Dispute { client_id, tx_id })
    } else if raw.tx_type@ == "resolve"@ {
        Ok(Transaction::Resolve { client_id, tx_id })
    } else if raw.tx_type@ == "chargeback"@ {
        Ok(Transaction::Chargeback { client_id, tx_id })
    } else {
        Err(AppError::Error)
    }
}

impl TryFrom<CsvTransactionRecord> for Transaction {
    type Error = AppError;

    fn try_from(raw: CsvTransactionRecord) -> (result: Result<Self, Self::Error>) {
        let client_id = raw.client;
        let tx_id = raw.tx;
        let amount = convert_amount(raw.amount);
        let tx_type = raw.tx_type.as_str();

        if chars_equal(tx_type, "deposit") {
            Ok(Transaction::Deposit { client_id, tx_id, amount })
        } else if chars_equal(tx_type, "withdrawal") {
            Ok(Transaction::Withdrawal { client_id, tx_id, amount })
        } else if chars_equal(tx_type, "dispute") {
            Ok(Transaction::Dispute { client_id, tx_id })
        } else if chars_equal(tx_type, "resolve") {
            Ok(Transaction::Resolve { client_id, tx_id })
        } else if chars_equal(tx_type, "chargeback") {
            Ok(Transaction::Chargeback { client_id, tx_id })
        } else {
            Err(AppError::Error)
        }
    }
}

impl TryFromSpecImpl<CsvTransactionRecord> for Transaction {
    open spec fn obeys_try_from_spec() -> bool {
        true
    }

    open spec fn try_from_spec(raw: CsvTransactionRecord) -> Result<Self, Self::Error> {
        transaction_of(raw)
    }
}

/// The amount of an input row; a missing or refused amount counts as 0.
pub fn convert_amount(amount: Option<String>) -> (value: Amount)
    ensures
        value == amount_of(amount),
{
    match amount {
        None => 0,
        Some(a) => match parse_amount_4dp(a.as_str()) {
            Ok(v) => v,
            Err(_) => 0,
        },
    }
}

} // verus!

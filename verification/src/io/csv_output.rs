use vstd::prelude::*;

use vstd::string::StringExecFns;

use crate::domain::account::AccountSnapshot;
use crate::domain::amount::Amount;
use crate::io::record::CsvAccountOutputRecord;

verus! {

/// The character of the decimal digit `d`.
pub open spec fn digit_char(d: int) -> char {
    (48 + d) as char
}

/// The decimal numeral of `n`, without leading zeros.
pub open spec fn decimal(n: nat) -> Seq<char>
    decreases n,
{
    if n < 10 {
        seq![digit_char(n as int)]
    } else {
        decimal(n / 10).push(digit_char((n % 10) as int))
    }
}

/// `s` without its trailing `0` characters.
pub open spec fn trim_trailing_zeros(s: Seq<char>) -> Seq<char>
    decreases s.len(),
{
    if s.len() > 0 && s.last() == '0' {
        trim_trailing_zeros(s.drop_last())
    } else {
        s
    }
}

/// The four digits of `f` (below 10000), zero-padded on the left.
pub open spec fn four_digits(f: nat) -> Seq<char> {
    seq![
        digit_char((f / 1000) as int),
        digit_char(((f / 100) % 10) as int),
        digit_char(((f / 10) % 10) as int),
        digit_char((f % 10) as int),
    ]
}

/// The text of an amount in ten-thousandths: a `-` when negative, the
/// whole units, and when there is a fractional part, a `.` and its four
/// digits without trailing zeros.
pub open spec fn amount_text(amount: i32) -> Seq<char> {
    let sign = if amount < 0 {
        seq!['-']
    } else {
        Seq::<char>::empty()
    };
    let magnitude = (if amount < 0 {
        -amount
    } else {
        amount as int
    }) as nat;
    let units = magnitude / 10000;
    let fraction = magnitude % 10000;
    if fraction == 0 {
        sign + decimal(units)
    } else {
        sign + decimal(units) + seq!['.'] + trim_trailing_zeros(four_digits(fraction))
    }
}

/// The one-character text of the digit `d`.
fn digit_text(d: u32) -> (text: &'static str)
    requires
        d < 10,
    ensures
        text@ == seq![digit_char(d as int)],
{
    proof {
        reveal_strlit("0");
        reveal_strlit("1");
        reveal_strlit("2");
        reveal_strlit("3");
        reveal_strlit("4");
        reveal_strlit("5");
        reveal_strlit("6");
        reveal_strlit("7");
        reveal_strlit("8");
        reveal_strlit("9");
    }
    match d {
        0 => "0",
        1 => "1",
        2 => "2",
        3 => "3",
        4 => "4",
        5 => "5",
        6 => "6",
        7 => "7",
        8 => "8",
        _ => "9",
    }
}

/// Appends the decimal numeral of `n` to `out`.
fn push_decimal(out: &mut String, n: u32)
    ensures
        final(out)@ == old(out)@ + decimal(n as nat),
    decreases n,
{
    if n >= 10 {
        push_decimal(out, n / 10);
    }
    let text = digit_text(n % 10);
    out.append(text);
    proof {
        if n >= 10 {
            assert(old(out)@ + decimal(n as nat) =~= old(out)@ + decimal((n / 10) as nat) + seq![digit_char((n % 10) as int)]);
        } else {
            assert(decimal(n as nat) == seq![digit_char(n as int)]);
        }
    }
}

/// Renders an amount in ten-thousandths as text: `15000` is `1.5`, `10000`
/// is `1`, `-20000` is `-2`, `55` is `0.0055`.
pub fn convert_amount_4dp(amount: Amount) -> (text: String)
    ensures
        text@ == amount_text(amount),
{
    let mut text = String::new();
    if amount < 0 {
        proof {
            reveal_strlit("-");
        }
        text.append("-");
    }
    let magnitude: u32 = if amount < 0 {
        (0 - amount as i64) as u32
    } else {
        amount as u32
    };
    let units = magnitude / 10_000;
    let fraction = magnitude % 10_000;
    push_decimal(&mut text, units);
    if fraction == 0 {
        return text;
    }
    proof {
        reveal_strlit(".");
    }
    text.append(".");
    let d1 = fraction / 1000;
    let d2 = fraction / 100 % 10;
    let d3 = fraction / 10 % 10;
    let d4 = fraction % 10;
    let keep: u32 = if d4 != 0 {
        4
    } else if d3 != 0 {
        3
    } else if d2 != 0 {
        2
    } else {
        1
    };
    let ghost before = text@;
    text.append(digit_text(d1));
    if keep >= 2 {
        text.append(digit_text(d2));
    }
    if keep >= 3 {
        text.append(digit_text(d3));
    }
    if keep >= 4 {
        text.append(digit_text(d4));
    }
    proof {
        let digits = four_digits(fraction as nat);
        assert(digits[0] == digit_char(d1 as int));
        reveal_with_fuel(trim_trailing_zeros, 4);
        assert(digits.drop_last() =~= seq![digits[0], digits[1], digits[2]]);
        assert(digits.drop_last().drop_last() =~= seq![digits[0], digits[1]]);
        assert(digits.drop_last().drop_last().drop_last() =~= seq![digits[0]]);
        assert(text@ =~= before + digits.subrange(0, keep as int));
        assert(trim_trailing_zeros(digits) =~= digits.subrange(0, keep as int));
    }
    text
}

/// The output rows for `accounts`, one per snapshot and in the same order:
/// the client, the three amounts as text, and the lock flag.
pub fn account_records(accounts: &[AccountSnapshot]) -> (records: Vec<CsvAccountOutputRecord>)
    ensures
        records@.len() == accounts@.len(),
        forall|i: int|
            0 <= i < accounts@.len() ==> {
                let r = #[trigger] records@[i];
                let a = accounts@[i];
                &&& r.client == a.client_id
                &&& r.available@ == amount_text(a.available)
                &&& r.held@ == amount_text(a.held)
                &&& r.total@ == amount_text(a.total)
                &&& r.locked == a.locked
            },
{
    let mut records: Vec<CsvAccountOutputRecord> = Vec::new();
    for i in 0..accounts.len()
        invariant
            records@.len() == i,
            forall|j: int|
                0 <= j < i ==> {
                    let r = #[trigger] records@[j];
                    let a = accounts@[j];
                    &&& r.client == a.client_id
                    &&& r.available@ == amount_text(a.available)
                    &&& r.held@ == amount_text(a.held)
                    &&& r.total@ == amount_text(a.total)
                    &&& r.locked == a.locked
                },
    {
        let account = &accounts[i];
        records.push(
            CsvAccountOutputRecord {
                client: account.client_id,
                available: convert_amount_4dp(account.available),
                held: convert_amount_4dp(account.held),
                total: convert_amount_4dp(account.total),
                locked: account.locked,
            },
        );
    }
    records
}

} // verus!

use vstd::prelude::*;

use vstd::arithmetic::div_mod::lemma_mod_breakdown;

use crate::extract::{magnitude, unsigned_magnitude, ExtractedTx};

verus! {

/// Satoshis in one bitcoin.
pub const SATS_PER_BTC: u64 = 100_000_000;

/// The character of a decimal digit.
pub open spec fn digit_char(d: nat) -> char {
    if d == 0 {
        '0'
    } else if d == 1 {
        '1'
    } else if d == 2 {
        '2'
    } else if d == 3 {
        '3'
    } else if d == 4 {
        '4'
    } else if d == 5 {
        '5'
    } else if d == 6 {
        '6'
    } else if d == 7 {
        '7'
    } else if d == 8 {
        '8'
    } else {
        '9'
    }
}

/// The decimal notation of a natural number, without leading zeros.
pub open spec fn decimal(n: nat) -> Seq<char>
    decreases n,
{
    if n < 10 {
        seq![digit_char(n)]
    } else {
        decimal(n / 10).push(digit_char(n % 10))
    }
}

/// The last `width` decimal digits of `n`, padded with leading zeros.
pub open spec fn fixed_digits(n: nat, width: nat) -> Seq<char>
    decreases width,
{
    if width == 0 {
        Seq::empty()
    } else {
        fixed_digits(n / 10, (width - 1) as nat).push(digit_char(n % 10))
    }
}

/// The sign in front of a number: `-` for a negative one, nothing otherwise.
pub open spec fn sign_text(x: int) -> Seq<char> {
    if x < 0 {
        seq!['-']
    } else {
        Seq::empty()
    }
}

/// An integer as `{}` prints it.
pub open spec fn int_text(x: int) -> Seq<char> {
    sign_text(x) + decimal(magnitude(x) as nat)
}

/// An amount of satoshis as a number of bitcoins with eight decimal places,
/// as `{:.8}` prints the amount in BTC.
pub open spec fn amount_text(sats: int) -> Seq<char> {
    let m = magnitude(sats) as nat;
    sign_text(sats) + decimal(m / (SATS_PER_BTC as nat)) + seq!['.'] + fixed_digits(
        m % (SATS_PER_BTC as nat),
        8,
    )
}

/// The ten lines of the report, in order.
pub open spec fn report_lines(tx: ExtractedTx) -> Seq<Seq<char>> {
    seq![
        tx.txid@,
        tx.miner_input_addr@,
        amount_text(tx.miner_input_amount as int),
        tx.trader_output_addr@,
        amount_text(tx.trader_output_amount as int),
        tx.change_addr@,
        amount_text(tx.change_amount as int),
        amount_text(tx.fee as int),
        int_text(tx.block_height as int),
        tx.block_hash@,
    ]
}

/// The report lists, in this order: the txid, the miner's input address and
/// amount, the trader's output address and amount, the change address and
/// amount, the fee, the block height and the block hash.
pub proof fn lemma_report_order(tx: ExtractedTx)
    ensures
        report_lines(tx).len() == 10,
        report_lines(tx)[0] == tx.txid@,
        report_lines(tx)[1] == tx.miner_input_addr@,
        report_lines(tx)[2] == amount_text(tx.miner_input_amount as int),
        report_lines(tx)[3] == tx.trader_output_addr@,
        report_lines(tx)[4] == amount_text(tx.trader_output_amount as int),
        report_lines(tx)[5] == tx.change_addr@,
        report_lines(tx)[6] == amount_text(tx.change_amount as int),
        report_lines(tx)[7] == amount_text(tx.fee as int),
        report_lines(tx)[8] == int_text(tx.block_height as int),
        report_lines(tx)[9] == tx.block_hash@,
{
}

/// Lines joined into a text, each one ended by a newline.
pub open spec fn lines_text(lines: Seq<Seq<char>>) -> Seq<char>
    decreases lines.len(),
{
    if lines.len() == 0 {
        Seq::empty()
    } else {
        lines_text(lines.drop_last()) + lines.last() + seq!['\n']
    }
}

/// The text of one decimal digit.
fn digit_str(d: u64) -> (s: &'static str)
    requires
        d < 10,
    ensures
        s@ == seq![digit_char(d as nat)],
{
    if d == 0 {
        proof {
            reveal_strlit("0");
        }
        "0"
    } else if d == 1 {
        proof {
            reveal_strlit("1");
        }
        "1"
    } else if d == 2 {
        proof {
            reveal_strlit("2");
        }
        "2"
    } else if d == 3 {
        proof {
            reveal_strlit("3");
        }
        "3"
    } else if d == 4 {
        proof {
            reveal_strlit("4");
        }
        "4"
    } else if d == 5 {
        proof {
            reveal_strlit("5");
        }
        "5"
    } else if d == 6 {
        proof {
            reveal_strlit("6");
        }
        "6"
    } else if d == 7 {
        proof {
            reveal_strlit("7");
        }
        "7"
    } else if d == 8 {
        proof {
            reveal_strlit("8");
        }
        "8"
    } else {
        proof {
            reveal_strlit("9");
        }
        "9"
    }
}

/// The decimal notation of `n`.
pub fn decimal_text(n: u64) -> (s: String)
    ensures
        s@ == decimal(n as nat),
    decreases n,
{
    if n < 10 {
        digit_str(n).to_owned()
    } else {
        let mut s = decimal_text(n / 10);
        s.append(digit_str(n % 10));
        s
    }
}

/// The last `width` decimal digits of `n`, padded with leading zeros.
pub fn fixed_digits_text(n: u64, width: u64) -> (s: String)
    ensures
        s@ == fixed_digits(n as nat, width as nat),
    decreases width,
{
    if width == 0 {
        String::new()
    } else {
        let mut s = fixed_digits_text(n / 10, width - 1);
        s.append(digit_str(n % 10));
        s
    }
}

/// An integer as `{}` prints it.
pub fn format_int(x: i64) -> (s: String)
    ensures
        s@ == int_text(x as int),
{
    let body = decimal_text(unsigned_magnitude(x));
    if x < 0 {
        proof {
            reveal_strlit("-");
        }
        let mut s = "-".to_owned();
        s.append(body.as_str());
        s
    } else {
        body
    }
}

/// A non-negative amount of satoshis in BTC with eight decimal places.
pub fn format_sats(sats: u64) -> (s: String)
    ensures
        s@ == amount_text(sats as int),
{
    proof {
        reveal_strlit(".");
    }
    let mut s = decimal_text(sats / SATS_PER_BTC);
    s.append(".");
    let frac = fixed_digits_text(sats % SATS_PER_BTC, 8);
    s.append(frac.as_str());
    s
}

/// An amount of satoshis in BTC with eight decimal places.
pub fn format_amount(sats: i64) -> (s: String)
    ensures
        s@ == amount_text(sats as int),
{
    let body = format_sats(unsigned_magnitude(sats));
    if sats < 0 {
        proof {
            reveal_strlit("-");
        }
        let mut s = "-".to_owned();
        s.append(body.as_str());
        s
    } else {
        body
    }
}

/// The ten lines of the report, in order.
pub fn output_lines(tx: &ExtractedTx) -> (lines: Vec<String>)
    ensures
        lines@.len() == 10,
        forall|i: int| 0 <= i < 10 ==> #[trigger] lines@[i]@ == report_lines(*tx)[i],
{
    let mut lines: Vec<String> = Vec::new();
    lines.push(tx.txid.clone());
    lines.push(tx.miner_input_addr.clone());
    lines.push(format_amount(tx.miner_input_amount));
    lines.push(tx.trader_output_addr.clone());
    lines.push(format_amount(tx.trader_output_amount));
    lines.push(tx.change_addr.clone());
    lines.push(format_amount(tx.change_amount));
    lines.push(format_sats(tx.fee));
    lines.push(format_int(tx.block_height));
    lines.push(tx.block_hash.clone());
    lines
}

/// The report: its ten lines, each ended by a newline.
pub fn render(tx: &ExtractedTx) -> (s: String)
    ensures
        s@ == lines_text(report_lines(*tx)),
{
    let lines = output_lines(tx);
    let ghost want = report_lines(*tx);
    let mut s = String::new();
    let mut i: usize = 0;
    proof {
        assert(want.take(0) =~= Seq::<Seq<char>>::empty());
    }
    while i < lines.len()
        invariant
            0 <= i <= lines@.len(),
            lines@.len() == 10,
            want == report_lines(*tx),
            forall|k: int| 0 <= k < 10 ==> #[trigger] lines@[k]@ == want[k],
            s@ == lines_text(want.take(i as int)),
        decreases lines@.len() - i,
    {
        proof {
            reveal_strlit("\n");
        }
        s.append(lines[i].as_str());
        s.append("\n");
        assert(want.take(i + 1).drop_last() =~= want.take(i as int));
        assert(want.take(i + 1).last() == want[i as int]);
        i = i + 1;
    }
    assert(want.take(10) =~= want);
    s
}

/// A decimal digit character.
pub open spec fn is_digit(c: char) -> bool {
    '0' <= c && c <= '9'
}

/// The value of a decimal digit character.
pub open spec fn digit_value(c: char) -> int {
    if c == '1' {
        1
    } else if c == '2' {
        2
    } else if c == '3' {
        3
    } else if c == '4' {
        4
    } else if c == '5' {
        5
    } else if c == '6' {
        6
    } else if c == '7' {
        7
    } else if c == '8' {
        8
    } else if c == '9' {
        9
    } else {
        0
    }
}

/// The number that a string of decimal digits denotes.
pub open spec fn digits_value(s: Seq<char>) -> int
    decreases s.len(),
{
    if s.len() == 0 {
        0
    } else {
        digits_value(s.drop_last()) * 10 + digit_value(s.last())
    }
}

/// The integer that a text printed by `{}` denotes.
pub open spec fn int_value(t: Seq<char>) -> int {
    if t.len() > 0 && t[0] == '-' {
        -digits_value(t.drop_first())
    } else {
        digits_value(t)
    }
}

/// The satoshis that an unsigned amount in BTC with eight decimal places
/// denotes: the digits before the point are whole bitcoins, the eight after
/// it are satoshis.
pub open spec fn unsigned_amount_value(b: Seq<char>) -> int {
    digits_value(b.take(b.len() - 9)) * (SATS_PER_BTC as int) + digits_value(b.skip(b.len() - 8))
}

/// The satoshis that an amount in BTC with eight decimal places denotes.
pub open spec fn amount_value(t: Seq<char>) -> int {
    if t.len() > 0 && t[0] == '-' {
        -unsigned_amount_value(t.drop_first())
    } else {
        unsigned_amount_value(t)
    }
}

/// Ten to the power `w`.
pub open spec fn pow10(w: nat) -> nat
    decreases w,
{
    if w == 0 {
        1
    } else {
        10 * pow10((w - 1) as nat)
    }
}

proof fn lemma_pow10_positive(w: nat)
    ensures
        pow10(w) > 0,
    decreases w,
{
    if w > 0 {
        lemma_pow10_positive((w - 1) as nat);
    }
}

proof fn lemma_digit_char(d: nat)
    requires
        d < 10,
    ensures
        is_digit(digit_char(d)),
        digit_value(digit_char(d)) == d,
{
}

proof fn lemma_decimal(n: nat)
    ensures
        decimal(n).len() >= 1,
        is_digit(decimal(n)[0]),
        forall|i: int| 0 <= i < decimal(n).len() ==> is_digit(#[trigger] decimal(n)[i]),
        digits_value(decimal(n)) == n,
    decreases n,
{
    if n < 10 {
        lemma_digit_char(n);
        assert(decimal(n).drop_last() =~= Seq::<char>::empty());
        assert(digits_value(decimal(n).drop_last()) == 0);
    } else {
        lemma_decimal(n / 10);
        lemma_digit_char(n % 10);
        let d = decimal(n / 10);
        assert(decimal(n).drop_last() =~= d);
        assert(decimal(n).last() == digit_char(n % 10));
        assert(n == (n / 10) * 10 + n % 10);
        assert forall|i: int| 0 <= i < decimal(n).len() implies is_digit(#[trigger] decimal(n)[i]) by {
            if i < d.len() {
                assert(decimal(n)[i] == d[i]);
            }
        }
    }
}

proof fn lemma_fixed_digits(n: nat, width: nat)
    ensures
        fixed_digits(n, width).len() == width,
        forall|i: int| 0 <= i < width ==> is_digit(#[trigger] fixed_digits(n, width)[i]),
        digits_value(fixed_digits(n, width)) == n % pow10(width),
    decreases width,
{
    lemma_pow10_positive(width);
    if width == 0 {
        assert(n % 1 == 0);
    } else {
        let w1 = (width - 1) as nat;
        lemma_fixed_digits(n / 10, w1);
        lemma_digit_char(n % 10);
        lemma_pow10_positive(w1);
        let f = fixed_digits(n / 10, w1);
        assert(fixed_digits(n, width).drop_last() =~= f);
        assert(fixed_digits(n, width).last() == digit_char(n % 10));
        assert forall|i: int| 0 <= i < width implies is_digit(#[trigger] fixed_digits(n, width)[i]) by {
            if i < w1 {
                assert(fixed_digits(n, width)[i] == f[i]);
            }
        }
        lemma_mod_breakdown(n as int, 10, pow10(w1) as int);
    }
}

/// An unsigned number's text, its digits, read back as the number.
proof fn lemma_unsigned_amount(m: nat)
    ensures
        ({
            let b = decimal(m / (SATS_PER_BTC as nat)) + seq!['.'] + fixed_digits(
                m % (SATS_PER_BTC as nat),
                8,
            );
            &&& b.len() >= 10
            &&& is_digit(b[0])
            &&& b[b.len() - 9] == '.'
            &&& forall|i: int| b.len() - 8 <= i < b.len() ==> is_digit(#[trigger] b[i])
            &&& unsigned_amount_value(b) == m
        }),
{
    let q = m / (SATS_PER_BTC as nat);
    let r = m % (SATS_PER_BTC as nat);
    let d = decimal(q);
    let f = fixed_digits(r, 8);
    let b = d + seq!['.'] + f;
    lemma_decimal(q);
    lemma_fixed_digits(r, 8);
    assert(pow10(8) == 100_000_000) by {
        reveal_with_fuel(pow10, 9);
    }
    assert(r % 100_000_000 == r);
    assert(b.take(b.len() - 9) =~= d);
    assert(b.skip(b.len() - 8) =~= f);
    assert(b[b.len() - 9] == '.');
    assert forall|i: int| b.len() - 8 <= i < b.len() implies is_digit(#[trigger] b[i]) by {
        assert(b[i] == f[i - (b.len() - 8)]);
    }
    assert(m == q * 100_000_000 + r);
}

/// The report prints every amount with eight decimal places, and the text
/// reads back as the same amount.
pub proof fn lemma_amount_text_round_trip(sats: int)
    ensures
        ({
            let t = amount_text(sats);
            &&& t.len() >= 10
            &&& t[t.len() - 9] == '.'
            &&& forall|i: int| t.len() - 8 <= i < t.len() ==> is_digit(#[trigger] t[i])
            &&& amount_value(t) == sats
        }),
{
    let m = magnitude(sats) as nat;
    lemma_unsigned_amount(m);
    let b = decimal(m / (SATS_PER_BTC as nat)) + seq!['.'] + fixed_digits(
        m % (SATS_PER_BTC as nat),
        8,
    );
    let t = amount_text(sats);
    if sats < 0 {
        assert(t =~= seq!['-'] + b);
        assert(t.drop_first() =~= b);
        assert forall|i: int| t.len() - 8 <= i < t.len() implies is_digit(#[trigger] t[i]) by {
            assert(t[i] == b[i - 1]);
        }
    } else {
        assert(t =~= b);
    }
}

/// The report prints every integer as `{}` does, and the text reads back as
/// the same integer.
pub proof fn lemma_int_text_round_trip(x: int)
    ensures
        int_value(int_text(x)) == x,
{
    let m = magnitude(x) as nat;
    lemma_decimal(m);
    let t = int_text(x);
    if x < 0 {
        assert(t.drop_first() =~= decimal(m));
    } else {
        assert(t =~= decimal(m));
    }
}

} // verus!

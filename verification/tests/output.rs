use tx_extract::extract::ExtractedTx;
use tx_extract::output::{decimal_text, fixed_digits_text, format_amount, format_int, format_sats, output_lines, render};

fn sats(btc: f64) -> i64 {
    (btc * 100_000_000.0).round() as i64
}

fn sample_tx() -> ExtractedTx {
    ExtractedTx {
        txid: "abc".into(),
        block_height: 100,
        block_hash: "def".into(),
        fee: sats(0.00000560) as u64,
        miner_input_addr: "addr_miner".into(),
        miner_input_amount: sats(50.0),
        trader_output_addr: "addr_trader".into(),
        trader_output_amount: sats(20.0),
        change_addr: "addr_change".into(),
        change_amount: sats(29.99999440),
    }
}

// The report holds the ten fields, one per line, amounts with eight decimals.
#[test]
fn test_write_output_format() {
    let tx = sample_tx();
    let content = render(&tx);
    let lines: Vec<&str> = content.trim().split('\n').collect();

    assert_eq!(lines.len(), 10);
    assert_eq!(lines[0], "abc");
    assert_eq!(lines[1], "addr_miner");
    assert_eq!(lines[2], "50.00000000");
    assert_eq!(lines[3], "addr_trader");
    assert_eq!(lines[4], "20.00000000");
    assert_eq!(lines[5], "addr_change");
    assert_eq!(lines[6], "29.99999440");
    assert_eq!(lines[7], "0.00000560");
    assert_eq!(lines[8], "100");
    assert_eq!(lines[9], "def");
}

#[test]
fn render_ends_every_line_with_newline() {
    let content = render(&sample_tx());
    assert_eq!(
        content,
        "abc\naddr_miner\n50.00000000\naddr_trader\n20.00000000\naddr_change\n29.99999440\n0.00000560\n100\ndef\n"
    );
    assert_eq!(output_lines(&sample_tx()).len(), 10);
}

#[test]
fn amounts_match_eight_decimal_formatting() {
    for btc in [0.0, 0.00000001, 0.5, 1.0, 12.3456789, 20.0, 29.9999944, 50.0, 21_000_000.0, -0.0000056, -3.25] {
        let s = sats(btc);
        assert_eq!(format_amount(s), format!("{:.8}", btc), "amount {}", btc);
    }
    assert_eq!(format_sats(560), "0.00000560");
    assert_eq!(format_sats(u64::MAX), "184467440737.09551615");
    assert_eq!(format_amount(i64::MIN), "-92233720368.54775808");
}

#[test]
fn amount_text_reads_back() {
    for s in [0i64, 1, 99_999_999, 100_000_000, 2_999_999_440, -560, i64::MAX] {
        let text = format_amount(s);
        let (sign, body) = match text.strip_prefix('-') {
            Some(b) => (-1i128, b),
            None => (1i128, text.as_str()),
        };
        let (whole, frac) = body.split_once('.').unwrap();
        assert_eq!(frac.len(), 8);
        let value = sign * (whole.parse::<i128>().unwrap() * 100_000_000 + frac.parse::<i128>().unwrap());
        assert_eq!(value, s as i128);
    }
}

#[test]
fn integers_match_display() {
    for x in [0i64, 7, 10, 100, 102, -1, -45, i64::MAX, i64::MIN] {
        assert_eq!(format_int(x), x.to_string());
        assert_eq!(format_int(x).parse::<i64>().unwrap(), x);
    }
    assert_eq!(decimal_text(0), "0");
    assert_eq!(decimal_text(1234567890), "1234567890");
    assert_eq!(fixed_digits_text(560, 8), "00000560");
    assert_eq!(fixed_digits_text(123456789, 3), "789");
    assert_eq!(fixed_digits_text(5, 0), "");
}

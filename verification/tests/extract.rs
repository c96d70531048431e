use tx_extract::config::{COINBASE_VALUE_SATS, SEND_AMOUNT_SATS};
use tx_extract::extract::{parse, DecodedTx, Output, ScriptPubKey, TransactionInfo};

/// An amount in BTC, as the wallet reports it, in satoshis.
fn sats(btc: f64) -> i64 {
    (btc * 100_000_000.0).round() as i64
}

fn output_to(value: i64, address: &str) -> Output {
    Output {
        value,
        script_pub_key: ScriptPubKey { address: Some(address.to_string()), addresses: None },
    }
}

fn output_without_address(value: i64) -> Output {
    Output { value, script_pub_key: ScriptPubKey { address: None, addresses: None } }
}

fn info_with(vout: Vec<Output>) -> TransactionInfo {
    TransactionInfo {
        blockheight: 200,
        blockhash: "00000000abc123".to_string(),
        fee: sats(-0.00000560),
        decoded: DecodedTx { vout },
    }
}

// Extracts address from the singular field.
#[test]
fn test_get_address_singular() {
    let spk = ScriptPubKey { address: Some("bcrt1qabc".into()), addresses: None };
    assert_eq!(spk.get_address(), Some("bcrt1qabc"));
}

// Falls back to the plural array when singular is absent.
#[test]
fn test_get_address_plural() {
    let spk = ScriptPubKey { address: None, addresses: Some(vec!["bcrt1qxyz".into()]) };
    assert_eq!(spk.get_address(), Some("bcrt1qxyz"));
}

// Singular takes precedence when both are present.
#[test]
fn test_get_address_prefers_singular() {
    let spk = ScriptPubKey {
        address: Some("bcrt1qprimary".into()),
        addresses: Some(vec!["bcrt1qfallback".into()]),
    };
    assert_eq!(spk.get_address(), Some("bcrt1qprimary"));
}

// Returns None when neither field is set.
#[test]
fn test_get_address_missing() {
    let spk = ScriptPubKey { address: None, addresses: None };
    assert_eq!(spk.get_address(), None);
}

#[test]
fn get_address_empty_list_is_missing() {
    let spk = ScriptPubKey { address: None, addresses: Some(vec![]) };
    assert_eq!(spk.get_address(), None);
}

#[test]
fn get_address_takes_first_of_list() {
    let spk = ScriptPubKey { address: None, addresses: Some(vec!["first".into(), "second".into()]) };
    assert_eq!(spk.get_address(), Some("first"));
}

// Full extraction of all fields from a wallet reply.
#[test]
fn test_parse_success() {
    let info = info_with(vec![
        output_to(sats(20.0), "bcrt1qtrader"),
        output_to(sats(29.99999440), "bcrt1qchange"),
    ]);
    let result = parse(info, "txid123", "bcrt1qtrader", "bcrt1qminer").unwrap();

    assert_eq!(result.txid, "txid123");
    assert_eq!(result.block_height, 200);
    assert_eq!(result.block_hash, "00000000abc123");
    assert_eq!(result.fee as i64, sats(0.00000560));
    assert_eq!(result.miner_input_addr, "bcrt1qminer");
    assert_eq!(result.miner_input_amount, sats(50.0));
    assert_eq!(result.trader_output_addr, "bcrt1qtrader");
    assert_eq!(result.trader_output_amount, sats(20.0));
    assert_eq!(result.change_addr, "bcrt1qchange");
    assert_eq!(result.change_amount, sats(29.99999440));
}

// Returns an error when the transaction has only one output.
#[test]
fn test_parse_missing_trader_vout() {
    let info = info_with(vec![output_to(sats(50.0), "bcrt1qminer")]);
    let result = parse(info, "txid123", "bcrt1qtrader", "bcrt1qminer");
    assert!(result.is_err());
    assert_eq!(result.unwrap_err().to_string(), "trader vout not found");
}

#[test]
fn parse_without_outputs_misses_trader() {
    let result = parse(info_with(vec![]), "t", "a", "m");
    assert_eq!(result.unwrap_err().0, "trader vout not found");
}

#[test]
fn parse_missing_change_vout() {
    let info = info_with(vec![output_to(sats(20.0), "a"), output_to(sats(20.00005), "b")]);
    let result = parse(info, "t", "a", "m");
    assert_eq!(result.unwrap_err().0, "change vout not found");
}

#[test]
fn parse_trader_address_missing() {
    let info = info_with(vec![output_without_address(sats(20.0)), output_to(sats(1.0), "b")]);
    let result = parse(info, "t", "a", "m");
    assert_eq!(result.unwrap_err().0, "trader vout address missing");
}

#[test]
fn parse_change_address_missing() {
    let info = info_with(vec![output_to(sats(20.0), "a"), output_without_address(sats(1.0))]);
    let result = parse(info, "t", "a", "m");
    assert_eq!(result.unwrap_err().0, "change vout address missing");
}

#[test]
fn parse_checks_trader_address_before_change_address() {
    let info = info_with(vec![output_without_address(sats(20.0)), output_without_address(sats(1.0))]);
    let result = parse(info, "t", "a", "m");
    assert_eq!(result.unwrap_err().0, "trader vout address missing");
}

// The first output within the tolerance is the trader output, the first
// outside it the change output, whatever their order.
#[test]
fn parse_takes_first_matches() {
    let info = info_with(vec![
        output_to(sats(5.0), "change1"),
        output_to(sats(20.00009999), "trader1"),
        output_to(sats(20.0), "trader2"),
        output_to(sats(7.0), "change2"),
    ]);
    let result = parse(info, "t", "a", "m").unwrap();
    assert_eq!(result.trader_output_addr, "trader1");
    assert_eq!(result.trader_output_amount, sats(20.00009999));
    assert_eq!(result.change_addr, "change1");
    assert_eq!(result.change_amount, sats(5.0));
}

// The tolerance is strict: 0.0001 BTC away is no longer the send amount.
#[test]
fn parse_tolerance_is_strict() {
    let info = info_with(vec![
        output_to(sats(20.0001), "edge"),
        output_to(sats(19.99990001), "inside"),
    ]);
    let result = parse(info, "t", "a", "m").unwrap();
    assert_eq!(result.trader_output_addr, "inside");
    assert_eq!(result.change_addr, "edge");
    assert_eq!(SEND_AMOUNT_SATS, sats(20.0));
}

#[test]
fn parse_fee_magnitude() {
    let mut info = info_with(vec![output_to(sats(20.0), "a"), output_to(sats(1.0), "b")]);
    info.fee = 700;
    let result = parse(info, "t", "a", "m").unwrap();
    assert_eq!(result.fee, 700);

    let mut info = info_with(vec![output_to(sats(20.0), "a"), output_to(sats(1.0), "b")]);
    info.fee = i64::MIN;
    let result = parse(info, "t", "a", "m").unwrap();
    assert_eq!(result.fee, 9_223_372_036_854_775_808u64);
    assert_eq!(result.miner_input_amount, COINBASE_VALUE_SATS);
}

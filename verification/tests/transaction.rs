use tx_extract::transaction::{finish_send, rpc_err, select_utxo};

#[test]
fn rpc_err_keeps_message() {
    assert_eq!(rpc_err("boom").to_string(), "boom");
}

#[test]
fn select_utxo_takes_first() {
    let list = vec![3u32, 4, 5];
    assert_eq!(*select_utxo(Some(&list)).unwrap(), 3);
}

#[test]
fn select_utxo_errors() {
    let empty: Vec<u32> = vec![];
    assert_eq!(select_utxo(Some(&empty)).unwrap_err().0, "no spendable UTXO with sufficient balance");
    assert_eq!(select_utxo::<u32>(None).unwrap_err().0, "listunspent returned non-array");
}

#[test]
fn finish_send_reads_txid() {
    let hex = "AbCdEf0123456789abcdef0123456789abcdef0123456789abcdef0123456789";
    let txid = finish_send(true, hex).unwrap();
    assert_eq!(txid.to_string(), hex.to_lowercase());
}

#[test]
fn finish_send_errors() {
    let hex = "abcdef0123456789abcdef0123456789abcdef0123456789abcdef0123456789";
    assert_eq!(finish_send(false, hex).unwrap_err().0, "send returned incomplete PSBT");
    assert_eq!(finish_send(true, "abc").unwrap_err().0, "invalid txid hex");
    assert_eq!(finish_send(true, &hex.replace('a', "g")).unwrap_err().0, "invalid txid hex");
    assert_eq!(finish_send(true, &format!("{}00", hex)).unwrap_err().0, "invalid txid hex");
}

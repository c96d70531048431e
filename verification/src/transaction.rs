use vstd::prelude::*;
use bitcoincore_rpc::bitcoin::Txid;
use bitcoincore_rpc::bitcoin::hashes::hex::HexToArrayError;

verus! {

#[verifier::external_type_specification]
#[verifier::external_body]
pub struct ExTxid(Txid);

#[verifier::external_type_specification]
#[verifier::external_body]
pub struct ExHexToArrayError(HexToArrayError);

/// An ASCII hexadecimal digit, either case.
pub open spec fn is_hex_digit(c: char) -> bool {
    ('0' <= c && c <= '9') || ('a' <= c && c <= 'f') || ('A' <= c && c <= 'F')
}

/// Text that names a transaction: exactly 64 hexadecimal digits.
pub open spec fn is_txid_hex(s: Seq<char>) -> bool {
    s.len() == 64 && forall|i: int| 0 <= i < s.len() ==> is_hex_digit(#[trigger] s[i])
}

/// The transaction id that `Txid::from_str` reads from valid text.
pub uninterp spec fn txid_of_hex(s: Seq<char>) -> Txid;

/// `<Txid as FromStr>::from_str` (bitcoin_hashes, over hex-conservative's
/// `FromHex for [u8; 32]`): it fails unless the text is 64 bytes long and
/// every byte is an ASCII hexadecimal digit (so 64 such characters), and then
/// decodes the bytes. The contract states exactly when it succeeds; which 32
/// bytes the id holds is not spelled out, only named as a function of the
/// text.
#[verifier::external_body]
fn txid_from_str(s: &str) -> (res: Result<Txid, HexToArrayError>)
    ensures
        res is Ok <==> is_txid_hex(s@),
        res matches Ok(t) ==> t == txid_of_hex(s@),
{
    <Txid as std::str::FromStr>::from_str(s)
}

/// A failure of the send flow, carrying its message.
#[derive(Debug)]
pub struct RpcError(pub String);

impl RpcError {
    /// The message of the error.
    pub fn to_string(&self) -> (s: String)
        ensures
            s@ == self.0@,
    {
        self.0.clone()
    }
}

/// Wraps a message into an error of the send flow.
pub fn rpc_err(msg: &str) -> (e: RpcError)
    ensures
        e.0@ == msg@,
{
    RpcError(msg.to_owned())
}

/// Picks the output to spend from the `listunspent` reply: the reply must be
/// an array (`utxos` is its elements, `None` when it is not one), and the
/// first element is taken.
pub fn select_utxo<T>(utxos: Option<&Vec<T>>) -> (res: Result<&T, RpcError>)
    ensures
        match utxos {
            None => res matches Err(e) && e.0@ == "listunspent returned non-array"@,
            Some(list) => if list@.len() == 0 {
                res matches Err(e) && e.0@ == "no spendable UTXO with sufficient balance"@
            } else {
                res matches Ok(u) && *u == list@[0]
            },
        },
{
    match utxos {
        None => Err(rpc_err("listunspent returned non-array")),
        Some(list) => {
            if list.len() == 0 {
                Err(rpc_err("no spendable UTXO with sufficient balance"))
            } else {
                Ok(&list[0])
            }
        },
    }
}

/// Reads the outcome of the `send` call: the transaction must be complete, and
/// its id must be 64 hexadecimal digits.
pub fn finish_send(complete: bool, txid: &str) -> (res: Result<Txid, RpcError>)
    ensures
        !complete ==> (res matches Err(e) && e.0@ == "send returned incomplete PSBT"@),
        complete && !is_txid_hex(txid@) ==> (res matches Err(e) && e.0@ == "invalid txid hex"@),
        complete && is_txid_hex(txid@) ==> res == Ok::<Txid, RpcError>(txid_of_hex(txid@)),
{
    if !complete {
        return Err(rpc_err("send returned incomplete PSBT"));
    }
    match txid_from_str(txid) {
        Ok(t) => Ok(t),
        Err(_) => Err(rpc_err("invalid txid hex")),
    }
}

} // verus!

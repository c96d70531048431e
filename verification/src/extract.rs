use vstd::prelude::*;

use crate::config::{COINBASE_VALUE_SATS, EPSILON_SATS, SEND_AMOUNT_SATS};

verus! {

/// The `gettransaction` reply of the wallet, as far as the extraction reads it.
/// Amounts are held in satoshis (1 BTC = 100 000 000 satoshis).
pub struct TransactionInfo {
    pub blockheight: i64,
    pub blockhash: String,
    /// The wallet reports the fee of an outgoing transaction as a negative amount.
    pub fee: i64,
    pub decoded: DecodedTx,
}

/// The decoded transaction, holding the raw `vout` array.
pub struct DecodedTx {
    pub vout: Vec<Output>,
}

/// A single transaction output: its value in satoshis and its script.
pub struct Output {
    pub value: i64,
    pub script_pub_key: ScriptPubKey,
}

/// The script public key of an output. SegWit outputs carry `address`
/// (singular), some legacy scripts carry `addresses` (a list).
pub struct ScriptPubKey {
    pub address: Option<String>,
    pub addresses: Option<Vec<String>>,
}

/// The ten fields of the report. Amounts are in satoshis; the fee is the
/// magnitude of the wallet's (negative) fee.
#[derive(Debug)]
pub struct ExtractedTx {
    pub txid: String,
    pub block_height: i64,
    pub block_hash: String,
    pub fee: u64,
    pub miner_input_addr: String,
    pub miner_input_amount: i64,
    pub trader_output_addr: String,
    pub trader_output_amount: i64,
    pub change_addr: String,
    pub change_amount: i64,
}

/// An extraction failure, carrying its message.
#[derive(Debug)]
pub struct ParseError(pub String);

impl ParseError {
    /// The message of the error.
    pub fn to_string(&self) -> (s: String)
        ensures
            s@ == self.0@,
    {
        self.0.clone()
    }
}

/// The address of a script: the singular field when present, otherwise the
/// first entry of the list, when there is one.
pub open spec fn address_of(spk: ScriptPubKey) -> Option<Seq<char>> {
    match spk.address {
        Some(a) => Some(a@),
        None => match spk.addresses {
            Some(list) => if list@.len() > 0 {
                Some(list@[0]@)
            } else {
                None
            },
            None => None,
        },
    }
}

impl ScriptPubKey {
    /// Returns the first available address, preferring the singular field.
    pub fn get_address(&self) -> (res: Option<&str>)
        ensures
            res is Some <==> address_of(*self) is Some,
            res matches Some(a) ==> address_of(*self) == Some(a@),
            self.address matches Some(a) ==> (res matches Some(r) && r@ == a@),
            self.address is None && (self.addresses matches Some(l) && l@.len() > 0) ==> (
            res matches Some(r) && r@ == self.addresses->0@[0]@),
            self.address is None && (self.addresses matches Some(l) ==> l@.len() == 0) ==> res
                is None,
    {
        match &self.address {
            Some(a) => Some(a.as_str()),
            None => match &self.addresses {
                Some(list) => {
                    if list.len() > 0 {
                        Some(list[0].as_str())
                    } else {
                        None
                    }
                },
                None => None,
            },
        }
    }
}

/// The address of a script is its singular address, unchanged, when there is
/// one; otherwise the first listed address, unchanged; otherwise there is none.
pub proof fn lemma_address_is_unaltered(spk: ScriptPubKey)
    ensures
        spk.address matches Some(a) ==> address_of(spk) == Some(a@),
        spk.address is None && (spk.addresses matches Some(l) && l@.len() > 0) ==> address_of(spk)
            == Some(spk.addresses->0@[0]@),
        spk.address is None && (spk.addresses matches Some(l) ==> l@.len() == 0) ==> address_of(
            spk,
        ) is None,
{
}

/// A value within the tolerance of the amount sent to the Trader wallet.
pub open spec fn is_send_amount(value: int) -> bool {
    -EPSILON_SATS < value - SEND_AMOUNT_SATS < EPSILON_SATS
}

/// `i` is the first position of `outs` whose value is (`want`) or is not
/// (`!want`) within the tolerance of the send amount.
pub open spec fn is_first_match(outs: Seq<Output>, want: bool, i: int) -> bool {
    &&& 0 <= i < outs.len()
    &&& is_send_amount(outs[i].value as int) == want
    &&& forall|j: int| 0 <= j < i ==> is_send_amount(#[trigger] outs[j].value as int) != want
}

/// The first position of `outs` whose value is (`want`) or is not (`!want`)
/// within the tolerance of the send amount, if there is one.
pub open spec fn first_match(outs: Seq<Output>, want: bool) -> Option<int> {
    if exists|i: int| is_first_match(outs, want, i) {
        Some(choose|i: int| is_first_match(outs, want, i))
    } else {
        None
    }
}

/// The trader output: the first one that carries the send amount.
pub open spec fn trader_index(outs: Seq<Output>) -> Option<int> {
    first_match(outs, true)
}

/// The change output: the first one that does not carry the send amount.
pub open spec fn change_index(outs: Seq<Output>) -> Option<int> {
    first_match(outs, false)
}

/// The message of the error that the extraction gives on these outputs, in the
/// order in which the checks are made; `None` when it succeeds.
pub open spec fn parse_failure(outs: Seq<Output>) -> Option<Seq<char>> {
    match trader_index(outs) {
        None => Some("trader vout not found"@),
        Some(t) => match change_index(outs) {
            None => Some("change vout not found"@),
            Some(c) => if address_of(outs[t].script_pub_key) is None {
                Some("trader vout address missing"@)
            } else if address_of(outs[c].script_pub_key) is None {
                Some("change vout address missing"@)
            } else {
                None
            },
        },
    }
}

/// The magnitude of a signed amount.
pub open spec fn magnitude(x: int) -> int {
    if x < 0 {
        -x
    } else {
        x
    }
}

/// Two positions that are both first matches for the same choice are the same.
proof fn lemma_first_match_unique(outs: Seq<Output>, want: bool, i: int, k: int)
    requires
        is_first_match(outs, want, i),
        is_first_match(outs, want, k),
    ensures
        i == k,
{
    if i < k {
        assert(is_send_amount(outs[i].value as int) != want);
    } else if k < i {
        assert(is_send_amount(outs[k].value as int) != want);
    }
}

/// A position that is a first match is the one that `first_match` names.
proof fn lemma_first_match_is(outs: Seq<Output>, want: bool, i: int)
    requires
        is_first_match(outs, want, i),
    ensures
        first_match(outs, want) == Some(i),
{
    let k = choose|k: int| is_first_match(outs, want, k);
    lemma_first_match_unique(outs, want, i, k);
}

/// Some first match exists at or before any output of the wanted kind.
proof fn lemma_first_match_exists(outs: Seq<Output>, want: bool, k: int)
    requires
        0 <= k < outs.len(),
        is_send_amount(outs[k].value as int) == want,
    ensures
        exists|i: int| 0 <= i <= k && is_first_match(outs, want, i),
    decreases k,
{
    if forall|j: int| 0 <= j < k ==> is_send_amount(#[trigger] outs[j].value as int) != want {
        assert(is_first_match(outs, want, k));
    } else {
        let j = choose|j: int| 0 <= j < k && is_send_amount(#[trigger] outs[j].value as int) == want;
        lemma_first_match_exists(outs, want, j);
    }
}

/// Whenever some output's value lies strictly within the tolerance of the
/// send amount, a trader output is found: the earliest such output, at or
/// before that one, whatever the values of the other outputs. The same holds
/// of the change output for any value outside the tolerance.
pub proof fn lemma_outputs_found_when_present(outs: Seq<Output>, k: int)
    requires
        0 <= k < outs.len(),
    ensures
        -EPSILON_SATS < outs[k].value - SEND_AMOUNT_SATS < EPSILON_SATS ==> (trader_index(outs) matches Some(t)
            && 0 <= t <= k && -EPSILON_SATS < outs[t].value - SEND_AMOUNT_SATS < EPSILON_SATS
            && forall|j: int| 0 <= j < t ==> !(-EPSILON_SATS < #[trigger] outs[j].value
            - SEND_AMOUNT_SATS < EPSILON_SATS)),
        !(-EPSILON_SATS < outs[k].value - SEND_AMOUNT_SATS < EPSILON_SATS) ==> (change_index(outs) matches Some(c)
            && 0 <= c <= k && !(-EPSILON_SATS < outs[c].value - SEND_AMOUNT_SATS < EPSILON_SATS)
            && forall|j: int| 0 <= j < c ==> -EPSILON_SATS < #[trigger] outs[j].value
            - SEND_AMOUNT_SATS < EPSILON_SATS),
{
    let want = is_send_amount(outs[k].value as int);
    lemma_first_match_exists(outs, want, k);
    let i = choose|i: int| 0 <= i <= k && is_first_match(outs, want, i);
    lemma_first_match_is(outs, want, i);
    assert forall|j: int| 0 <= j < i implies is_send_amount(#[trigger] outs[j].value as int) != want by {
    }
}

/// When some output carries the send amount, the extraction never fails with
/// "trader vout not found"; when some output does not, never with
/// "change vout not found".
pub proof fn lemma_no_missing_output_error_when_present(outs: Seq<Output>, k: int)
    requires
        0 <= k < outs.len(),
    ensures
        -EPSILON_SATS < outs[k].value - SEND_AMOUNT_SATS < EPSILON_SATS ==> parse_failure(outs)
            != Some("trader vout not found"@),
        !(-EPSILON_SATS < outs[k].value - SEND_AMOUNT_SATS < EPSILON_SATS) ==> parse_failure(outs)
            != Some("change vout not found"@),
{
    reveal_strlit("trader vout not found");
    reveal_strlit("change vout not found");
    reveal_strlit("trader vout address missing");
    reveal_strlit("change vout address missing");
    lemma_outputs_found_when_present(outs, k);
    let t1 = "trader vout not found"@;
    let c1 = "change vout not found"@;
    let t2 = "trader vout address missing"@;
    let c2 = "change vout address missing"@;
    assert(t1 != c1) by {
        assert(t1[0] != c1[0]);
    }
    assert(t1 != t2) by {
        assert(t1.len() != t2.len());
    }
    assert(t1 != c2) by {
        assert(t1.len() != c2.len());
    }
    assert(c1 != t2) by {
        assert(c1.len() != t2.len());
    }
    assert(c1 != c2) by {
        assert(c1.len() != c2.len());
    }
}

/// With no output carrying the send amount the extraction fails with
/// "trader vout not found"; with some that do but none that does not, it fails
/// with "change vout not found".
pub proof fn lemma_missing_output_errors(outs: Seq<Output>)
    ensures
        (forall|j: int| 0 <= j < outs.len() ==> !(-EPSILON_SATS < #[trigger] outs[j].value
            - SEND_AMOUNT_SATS < EPSILON_SATS)) ==> parse_failure(outs) == Some(
            "trader vout not found"@,
        ),
        (exists|k: int| 0 <= k < outs.len() && -EPSILON_SATS < #[trigger] outs[k].value
            - SEND_AMOUNT_SATS < EPSILON_SATS) && (forall|j: int| 0 <= j < outs.len() ==>
            -EPSILON_SATS < #[trigger] outs[j].value - SEND_AMOUNT_SATS < EPSILON_SATS)
            ==> parse_failure(outs) == Some("change vout not found"@),
{
    if exists|k: int|
        0 <= k < outs.len() && -EPSILON_SATS < #[trigger] outs[k].value - SEND_AMOUNT_SATS
            < EPSILON_SATS {
        let k = choose|k: int|
            0 <= k < outs.len() && -EPSILON_SATS < #[trigger] outs[k].value - SEND_AMOUNT_SATS
                < EPSILON_SATS;
        lemma_outputs_found_when_present(outs, k);
        if forall|j: int|
            0 <= j < outs.len() ==> -EPSILON_SATS < #[trigger] outs[j].value - SEND_AMOUNT_SATS
                < EPSILON_SATS {
            assert(!exists|i: int| is_first_match(outs, false, i));
        }
    } else {
        assert(!exists|i: int| is_first_match(outs, true, i));
    }
}

/// The fee is reported as the size of the wallet's fee: never negative, and
/// equal to the fee or to its negation.
pub proof fn lemma_magnitude(x: int)
    ensures
        magnitude(x) >= 0,
        magnitude(x) == x || magnitude(x) == -x,
        x >= 0 ==> magnitude(x) == x,
{
}

/// The trader output carries the send amount and the change output does
/// not, so the two are never the same output, and each comes before any other
/// output of its kind.
pub proof fn lemma_trader_and_change_differ(outs: Seq<Output>)
    requires
        trader_index(outs) is Some,
        change_index(outs) is Some,
    ensures
        ({
            let t = trader_index(outs)->0;
            let c = change_index(outs)->0;
            &&& t != c
            &&& 0 <= t < outs.len() && 0 <= c < outs.len()
            &&& is_send_amount(outs[t].value as int)
            &&& !is_send_amount(outs[c].value as int)
            &&& forall|j: int| 0 <= j < t ==> !is_send_amount(#[trigger] outs[j].value as int)
            &&& forall|j: int| 0 <= j < c ==> is_send_amount(#[trigger] outs[j].value as int)
        }),
{
    let t = trader_index(outs)->0;
    let c = change_index(outs)->0;
    assert(is_first_match(outs, true, t));
    assert(is_first_match(outs, false, c));
}

/// Whether a value is within the tolerance of the send amount.
fn send_amount_matches(value: i64) -> (res: bool)
    ensures
        res == is_send_amount(value as int),
{
    value > SEND_AMOUNT_SATS - EPSILON_SATS && value < SEND_AMOUNT_SATS + EPSILON_SATS
}

/// The first output whose value is (`want`) or is not (`!want`) within the
/// tolerance of the send amount.
fn find_first(outs: &Vec<Output>, want: bool) -> (res: Option<usize>)
    ensures
        match res {
            Some(i) => first_match(outs@, want) == Some(i as int),
            None => first_match(outs@, want) is None,
        },
{
    let mut i: usize = 0;
    while i < outs.len()
        invariant
            0 <= i <= outs@.len(),
            forall|j: int| 0 <= j < i ==> is_send_amount(#[trigger] outs@[j].value as int) != want,
        decreases outs@.len() - i,
    {
        if send_amount_matches(outs[i].value) == want {
            proof {
                lemma_first_match_is(outs@, want, i as int);
            }
            return Some(i);
        }
        i = i + 1;
    }
    assert(!exists|k: int| is_first_match(outs@, want, k)) by {
        assert forall|k: int| !is_first_match(outs@, want, k) by {
            if 0 <= k < outs@.len() {
                assert(is_send_amount(outs@[k].value as int) != want);
            }
        }
    }
    None
}

/// The magnitude of a signed amount, which always fits in a `u64`.
pub fn unsigned_magnitude(x: i64) -> (res: u64)
    ensures
        res as int == magnitude(x as int),
{
    if x < 0 {
        let y: i64 = -(x + 1);
        (y as u64) + 1
    } else {
        x as u64
    }
}

/// Builds the report from the wallet's `gettransaction` reply: the trader
/// output is the first output carrying the send amount (within the
/// tolerance), the change output the first that does not; the miner input is
/// the mining address with the coinbase value; the fee is made positive.
pub fn parse(info: TransactionInfo, txid: &str, _trader_addr: &str, miner_addr: &str) -> (res:
    Result<ExtractedTx, ParseError>)
    ensures
        match res {
            Err(e) => parse_failure(info.decoded.vout@) == Some(e.0@),
            Ok(x) => {
                let outs = info.decoded.vout@;
                let t = trader_index(outs)->0;
                let c = change_index(outs)->0;
                &&& parse_failure(outs) is None
                &&& trader_index(outs) is Some
                &&& change_index(outs) is Some
                &&& x.txid@ == txid@
                &&& x.block_height == info.blockheight
                &&& x.block_hash@ == info.blockhash@
                &&& x.fee as int == magnitude(info.fee as int)
                &&& x.miner_input_addr@ == miner_addr@
                &&& x.miner_input_amount == COINBASE_VALUE_SATS
                &&& Some(x.trader_output_addr@) == address_of(outs[t].script_pub_key)
                &&& x.trader_output_amount == outs[t].value
                &&& Some(x.change_addr@) == address_of(outs[c].script_pub_key)
                &&& x.change_amount == outs[c].value
            },
        },
{
    let ghost outs = info.decoded.vout@;
    let trader = match find_first(&info.decoded.vout, true) {
        Some(t) => t,
        None => {
            return Err(ParseError("trader vout not found".to_owned()));
        },
    };
    let change = match find_first(&info.decoded.vout, false) {
        Some(c) => c,
        None => {
            return Err(ParseError("change vout not found".to_owned()));
        },
    };
    let trader_vout = &info.decoded.vout[trader];
    let change_vout = &info.decoded.vout[change];

    let trader_output_addr = match trader_vout.script_pub_key.get_address() {
        Some(a) => a.to_owned(),
        None => {
            return Err(ParseError("trader vout address missing".to_owned()));
        },
    };
    let trader_output_amount = trader_vout.value;

    let change_addr = match change_vout.script_pub_key.get_address() {
        Some(a) => a.to_owned(),
        None => {
            return Err(ParseError("change vout address missing".to_owned()));
        },
    };
    let change_amount = change_vout.value;

    let miner_input_addr = miner_addr.to_owned();
    let miner_input_amount = COINBASE_VALUE_SATS;

    let fee = unsigned_magnitude(info.fee);

    Ok(
        ExtractedTx {
            txid: txid.to_owned(),
            block_height: info.blockheight,
            block_hash: info.blockhash,
            fee,
            miner_input_addr,
            miner_input_amount,
            trader_output_addr,
            trader_output_amount,
            change_addr,
            change_amount,
        },
    )
}

} // verus!

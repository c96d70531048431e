use vstd::prelude::*;

verus! {

/// Amount sent to the Trader wallet: 20 BTC, in satoshis.
pub const SEND_AMOUNT_SATS: i64 = 2_000_000_000;

/// Tolerance when matching an output against the send amount: 0.0001 BTC, in satoshis.
pub const EPSILON_SATS: i64 = 10_000;

/// Block reward in regtest mode: 50 BTC, in satoshis.
pub const COINBASE_VALUE_SATS: i64 = 5_000_000_000;

/// Number of blocks to mine so the first coinbase matures (100 + 1).
pub const MATURITY_BLOCKS: u64 = 101;

/// Single confirmation block after sending the transaction.
pub const CONFIRM_BLOCKS: u64 = 1;

} // verus!

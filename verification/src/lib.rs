//! Reports on a regtest transaction sent from a Miner wallet to a Trader
//! wallet: the URL and wallet decisions of the RPC session, the choice of the
//! output to spend, the reading of the `send` reply, the extraction of the
//! report's fields from the wallet's `gettransaction` reply, and the report's
//! text. Amounts are held in satoshis.

pub mod client;
pub mod config;
pub mod extract;
pub mod output;
pub mod transaction;

//! The market data that the library's logic reads.

use vstd::prelude::*;

verus! {

/// One coin of the market listing, as the library's logic sees it.
///
/// Prices and percentage changes are floating-point numbers at the data
/// source; the library holds them as order keys: integers that order the
/// coins exactly as the numbers themselves compare.
pub struct Coin {
    pub id: String,
    pub symbol: String,
    pub name: String,
    pub market_cap_rank: u32,
    pub market_cap: u64,
    pub total_volume: u64,
    /// Order key of the current price.
    pub price_key: i64,
    /// Order key of the 24h price change in percent (a missing change counts as zero).
    pub change_key: i64,
}

/// The part of a coin's detail record that the detail screen reads.
pub struct CoinDetails {
    /// The coin's homepage links, in the order the data source lists them.
    pub homepage: Vec<String>,
}

} // verus!

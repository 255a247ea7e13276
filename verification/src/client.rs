//! The requests that the application sends to the market data service.

use vstd::prelude::*;
use vstd::string::*;

use crate::text::{decimal, decimal_reads_back, decimal_string, digits_value};

verus! {

broadcast use vstd::string::group_string_axioms;

/// Address of the market listing endpoint.
pub const BASE_URL: &'static str = "https://api.coingecko.com/api/v3/coins/markets";

/// Address of the per-coin endpoint, to which the coin's id is appended.
pub const COIN_URL: &'static str = "https://api.coingecko.com/api/v3/coins/";

/// Currency in which prices are quoted.
pub const DEFAULT_CURRENCY: &'static str = "usd";

/// Order in which the service lists coins.
pub const DEFAULT_ORDER: &'static str = "market_cap_desc";

/// Page of the listing that is requested.
pub const DEFAULT_PAGE: u32 = 1;

/// The address that requests the first `per_page` coins of the market listing.
pub open spec fn market_data_url_spec(per_page: u32) -> Seq<char> {
    BASE_URL@ + "?vs_currency="@ + DEFAULT_CURRENCY@ + "&order="@ + DEFAULT_ORDER@ + "&per_page="@
        + decimal(per_page as nat) + "&page="@ + decimal(DEFAULT_PAGE as nat)
}

/// The address of the market listing request for `per_page` coins.
pub fn market_data_url(per_page: u32) -> (url: String)
    ensures
        url@ == market_data_url_spec(per_page),
{
    let mut url = String::from_str(BASE_URL);
    url.append("?vs_currency=");
    url.append(DEFAULT_CURRENCY);
    url.append("&order=");
    url.append(DEFAULT_ORDER);
    url.append("&per_page=");
    let count = decimal_string(per_page as u64);
    url.append(count.as_str());
    url.append("&page=");
    let page = decimal_string(DEFAULT_PAGE as u64);
    url.append(page.as_str());
    url
}

/// The address of the detail request for the coin with id `coin_id`.
pub fn coin_details_url(coin_id: &str) -> (url: String)
    ensures
        url@ == COIN_URL@ + coin_id@,
{
    let mut url = String::from_str(COIN_URL);
    url.append(coin_id);
    url
}

/// The address of the one-day price history request for the coin with id
/// `coin_id`, priced in `DEFAULT_CURRENCY`. The endpoint (`market_chart`)
/// and its parameters are this library's choice: one day of prices is what
/// the detail screen's 24h chart shows.
pub fn chart_data_url(coin_id: &str) -> (url: String)
    ensures
        url@ == COIN_URL@ + coin_id@ + "/market_chart?vs_currency="@ + DEFAULT_CURRENCY@ + "&days=1"@,
{
    let mut url = coin_details_url(coin_id);
    url.append("/market_chart?vs_currency=");
    url.append(DEFAULT_CURRENCY);
    url.append("&days=1");
    url
}

/// The market listing request asks for exactly the chosen number of coins:
/// its address is the listing endpoint followed by parameters in which
/// `&per_page=` is followed by decimal digits that read as `per_page`, and
/// then by `&page=`.
pub proof fn market_request_asks_for_chosen_count(per_page: u32)
    ensures
        exists|params: Seq<char>, digits: Seq<char>, rest: Seq<char>|
            {
                &&& #[trigger] market_data_url_spec(per_page) == BASE_URL@ + params + "&per_page="@ + digits
                    + "&page="@ + rest
                &&& digits.len() > 0
                &&& forall|i: int| 0 <= i < digits.len() ==> 48 <= #[trigger] digits[i] as u32 <= 57
                &&& digits_value(digits) == per_page
            },
{
    decimal_reads_back(per_page as nat);
    let params = "?vs_currency="@ + DEFAULT_CURRENCY@ + "&order="@ + DEFAULT_ORDER@;
    let digits = decimal(per_page as nat);
    let rest = decimal(DEFAULT_PAGE as nat);
    assert(market_data_url_spec(per_page) =~= BASE_URL@ + params + "&per_page="@ + digits + "&page="@ + rest);
}

} // verus!

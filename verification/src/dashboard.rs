//! Decisions of the coin listing screen.

use vstd::prelude::*;

use crate::ui::CoinFilter;

verus! {

/// The star shown in a coin's row: filled for a favourite, hollow otherwise.
pub fn favorite_icon(is_favorite: bool) -> (icon: &'static str)
    ensures
        icon@ == (if is_favorite { "★"@ } else { "☆"@ }),
{
    if is_favorite {
        "★"
    } else {
        "☆"
    }
}

/// The explanation shown when the listing is empty, given the filter and the
/// number of favourites.
pub fn empty_list_message(show_filter: &CoinFilter, favorite_count: usize) -> (message: &'static str)
    ensures
        message@ == match *show_filter {
            CoinFilter::Favorites => if favorite_count == 0 {
                "You haven't added any favorite coins yet."@
            } else {
                "No favorite coins match your search."@
            },
            CoinFilter::All => "No coins match your search."@,
        },
{
    match show_filter {
        CoinFilter::Favorites => {
            if favorite_count == 0 {
                "You haven't added any favorite coins yet."
            } else {
                "No favorite coins match your search."
            }
        },
        CoinFilter::All => "No coins match your search.",
    }
}

} // verus!

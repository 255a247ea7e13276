//! Search, filtering and ordering of the coin listing.

use vstd::prelude::*;

use crate::models::Coin;
use crate::storage::FavoriteSet;
use crate::text::{
    all_white_space, ascii_lower, ascii_upper, contains_seq, contains_str, is_ascii_text,
    lemma_lower_after_upper, lemma_trim_end_upper, lemma_trim_start_upper, lemma_trimmed_ascii,
    lemma_trimmed_ignores_surrounding, lowered, to_lowercase, trim, trim_start, trimmed, views_of,
};
use crate::ui::{CoinFilter, SortBy, SortOrder};

verus! {

/// A coin matches a search query when the query is empty or occurs in the
/// coin's lowercased name or lowercased symbol.
pub open spec fn search_matches(query: Seq<char>, name_lower: Seq<char>, symbol_lower: Seq<char>) -> bool {
    query.len() == 0 || contains_seq(name_lower, query) || contains_seq(symbol_lower, query)
}

/// A coin passes the filter when all coins are shown or its id is a favourite.
pub open spec fn filter_admits(filter: CoinFilter, favorites: Set<Seq<char>>, id: Seq<char>) -> bool {
    match filter {
        CoinFilter::All => true,
        CoinFilter::Favorites => favorites.contains(id),
    }
}

/// The quantity by which `sort_by` orders coins.
pub open spec fn sort_key(c: Coin, sort_by: SortBy) -> int {
    match sort_by {
        SortBy::Rank => c.market_cap_rank as int,
        SortBy::Price => c.price_key as int,
        SortBy::MarketCap => c.market_cap as int,
        SortBy::Volume => c.total_volume as int,
        SortBy::Change24h => c.change_key as int,
    }
}

/// Whether the listing runs from the smallest key to the largest.
/// Rank follows the chosen order; for the market quantities `Ascending`
/// puts the largest value first and `Descending` the smallest.
pub open spec fn smallest_first(sort_by: SortBy, sort_order: SortOrder) -> bool {
    (sort_by == SortBy::Rank) == (sort_order == SortOrder::Ascending)
}

/// Whether coin `a` is listed before coin `b`: by key in the listing's
/// direction, and by position in `coins` between equal keys.
pub open spec fn listed_before(coins: Seq<Coin>, sort_by: SortBy, up: bool, a: int, b: int) -> bool {
    let ka: int = sort_key(coins[a], sort_by);
    let kb: int = sort_key(coins[b], sort_by);
    if up {
        ka < kb || (ka == kb && a < b)
    } else {
        ka > kb || (ka == kb && a < b)
    }
}

/// Whether coin `i` is shown, given the lowercased query, names and symbols.
pub open spec fn shown(
    coins: Seq<Coin>,
    query: Seq<char>,
    names_lower: Seq<Seq<char>>,
    symbols_lower: Seq<Seq<char>>,
    filter: CoinFilter,
    favorites: Set<Seq<char>>,
    i: int,
) -> bool {
    search_matches(query, names_lower[i], symbols_lower[i]) && filter_admits(filter, favorites, coins[i].id@)
}

/// `r` lists, as positions in `coins`, exactly the coins for which `shown`
/// holds, each once, in the order of `listed_before`.
pub open spec fn is_listing(
    coins: Seq<Coin>,
    query: Seq<char>,
    names_lower: Seq<Seq<char>>,
    symbols_lower: Seq<Seq<char>>,
    filter: CoinFilter,
    favorites: Set<Seq<char>>,
    sort_by: SortBy,
    up: bool,
    r: Seq<usize>,
) -> bool {
    &&& forall|k: int|
        0 <= k < r.len() ==> #[trigger] r[k] < coins.len() && shown(
            coins,
            query,
            names_lower,
            symbols_lower,
            filter,
            favorites,
            r[k] as int,
        )
    &&& forall|i: int|
        0 <= i < coins.len() && shown(coins, query, names_lower, symbols_lower, filter, favorites, i)
            ==> r.contains(i as usize)
    &&& forall|k: int, l: int|
        0 <= k < l < r.len() ==> listed_before(coins, sort_by, up, #[trigger] r[k] as int, #[trigger] r[l] as int)
}

/// The lowercased names of `coins`.
pub open spec fn names_lowercased(coins: Seq<Coin>) -> Seq<Seq<char>> {
    coins.map_values(|c: Coin| lowered(c.name@))
}

/// The lowercased symbols of `coins`.
pub open spec fn symbols_lowercased(coins: Seq<Coin>) -> Seq<Seq<char>> {
    coins.map_values(|c: Coin| lowered(c.symbol@))
}

/// The query that a search text stands for: trimmed and lowercased.
pub open spec fn search_key(search_query: Seq<char>) -> Seq<char> {
    lowered(trimmed(search_query))
}

/// `r` is the listing that `get_filtered_coins` returns for these inputs:
/// `is_listing` with the query trimmed and lowercased and with the coins'
/// names and symbols lowercased.
pub open spec fn filtered_listing(
    coins: Seq<Coin>,
    search_query: Seq<char>,
    filter: CoinFilter,
    favorites: Set<Seq<char>>,
    sort_by: SortBy,
    sort_order: SortOrder,
    r: Seq<usize>,
) -> bool {
    is_listing(
        coins,
        search_key(search_query),
        names_lowercased(coins),
        symbols_lowercased(coins),
        filter,
        favorites,
        sort_by,
        smallest_first(sort_by, sort_order),
        r,
    )
}

fn key_of(c: &Coin, sort_by: &SortBy) -> (k: i128)
    ensures
        k == sort_key(*c, *sort_by),
{
    match sort_by {
        SortBy::Rank => c.market_cap_rank as i128,
        SortBy::Price => c.price_key as i128,
        SortBy::MarketCap => c.market_cap as i128,
        SortBy::Volume => c.total_volume as i128,
        SortBy::Change24h => c.change_key as i128,
    }
}

/// The positions of the coins to show, in display order, given the search
/// query and the coins' names and symbols already lowercased
/// (`names_lower[i]` and `symbols_lower[i]` belong to `coins[i]`).
pub fn select_coins(
    coins: &[Coin],
    query: &str,
    names_lower: &[String],
    symbols_lower: &[String],
    show_filter: &CoinFilter,
    favorite_coins: &FavoriteSet,
    sort_by: &SortBy,
    sort_order: &SortOrder,
) -> (r: Vec<usize>)
    requires
        names_lower@.len() == coins@.len(),
        symbols_lower@.len() == coins@.len(),
    ensures
        is_listing(
            coins@,
            query@,
            views_of(names_lower@),
            views_of(symbols_lower@),
            *show_filter,
            favorite_coins@,
            *sort_by,
            smallest_first(*sort_by, *sort_order),
            r@,
        ),
{
    let up = match (sort_by, sort_order) {
        (SortBy::Rank, SortOrder::Ascending) => true,
        (SortBy::Rank, SortOrder::Descending) => false,
        (_, SortOrder::Ascending) => false,
        (_, SortOrder::Descending) => true,
    };
    let ghost cs = coins@;
    let ghost nv = views_of(names_lower@);
    let ghost sv = views_of(symbols_lower@);
    let n: usize = coins.len();
    let mut r: Vec<usize> = Vec::new();
    let mut i: usize = 0;
    while i < n
        invariant
            n == coins@.len(),
            cs == coins@,
            names_lower@.len() == n,
            symbols_lower@.len() == n,
            nv == views_of(names_lower@),
            sv == views_of(symbols_lower@),
            up == smallest_first(*sort_by, *sort_order),
            i <= n,
            forall|k: int| 0 <= k < r@.len() ==> #[trigger] r@[k] < i && shown(cs, query@, nv, sv, *show_filter, favorite_coins@, r@[k] as int),
            forall|j: int| 0 <= j < i && #[trigger] shown(cs, query@, nv, sv, *show_filter, favorite_coins@, j) ==> r@.contains(j as usize),
            forall|k: int, l: int|
                0 <= k < l < r@.len() ==> listed_before(cs, *sort_by, up, #[trigger] r@[k] as int, #[trigger] r@[l] as int),
        decreases n - i,
    {
        let shown_now = (query.is_empty() || contains_str(names_lower[i].as_str(), query)
            || contains_str(symbols_lower[i].as_str(), query)) && match show_filter {
            CoinFilter::All => true,
            CoinFilter::Favorites => favorite_coins.contains(&coins[i].id),
        };
        assert(nv[i as int] == names_lower@[i as int]@ && sv[i as int] == symbols_lower@[i as int]@);
        if shown_now {
            let key: i128 = key_of(&coins[i], sort_by);
            let mut p: usize = 0;
            while p < r.len()
                invariant
                    n == coins@.len(),
                    i < n,
                    key == sort_key(cs[i as int], *sort_by),
                    cs == coins@,
                    p <= r@.len(),
                    forall|k: int| 0 <= k < r@.len() ==> #[trigger] r@[k] < i,
                    forall|q: int| 0 <= q < p ==> listed_before(cs, *sort_by, up, #[trigger] r@[q] as int, i as int),
                ensures
                    p <= r@.len(),
                    forall|q: int| 0 <= q < p ==> listed_before(cs, *sort_by, up, #[trigger] r@[q] as int, i as int),
                    p < r@.len() ==> listed_before(cs, *sort_by, up, i as int, r@[p as int] as int),
                decreases r@.len() - p,
            {
                let other: i128 = key_of(&coins[r[p]], sort_by);
                let goes_first = if up { key < other } else { key > other };
                if goes_first {
                    break;
                }
                p = p + 1;
            }
            let ghost old_r = r@;
            r.insert(p, i);
            assert(forall|q: int| 0 <= q < p ==> r@[q] == old_r[q]);
            assert(forall|q: int| p < q < r@.len() ==> r@[q] == old_r[q - 1]);
            assert(r@[p as int] == i);
            assert forall|j: int| 0 <= j < i + 1 && #[trigger] shown(cs, query@, nv, sv, *show_filter, favorite_coins@, j) implies r@.contains(j as usize) by {
                if j == i {
                    assert(r@[p as int] == j as usize);
                } else {
                    let w: int = choose|w: int| 0 <= w < old_r.len() && old_r[w] == j as usize;
                    if w < p {
                        assert(r@[w] == j as usize);
                    } else {
                        assert(r@[w + 1] == j as usize);
                    }
                }
            }
        }
        i = i + 1;
    }
    r
}

/// The positions, in `coins`, of the coins that the listing shows, in display order.
///
/// A coin is shown when the search query, with surrounding white space
/// removed and lowercased, is empty or occurs in the coin's lowercased name
/// or symbol, and, under `CoinFilter::Favorites`, when its id is a favourite.
/// The shown coins are ordered by the chosen quantity (see `smallest_first`),
/// coins with equal values keeping their order in `coins`.
pub fn get_filtered_coins(
    coins: &[Coin],
    search_query: &str,
    show_filter: &CoinFilter,
    favorite_coins: &FavoriteSet,
    sort_by: &SortBy,
    sort_order: &SortOrder,
) -> (r: Vec<usize>)
    ensures
        filtered_listing(coins@, search_query@, *show_filter, favorite_coins@, *sort_by, *sort_order, r@),
{
    let trimmed_query = trim(search_query);
    let query = to_lowercase(trimmed_query);
    assert(query@ == search_key(search_query@));
    let mut names: Vec<String> = Vec::new();
    let mut symbols: Vec<String> = Vec::new();
    let mut i: usize = 0;
    while i < coins.len()
        invariant
            i <= coins@.len(),
            names@.len() == i,
            symbols@.len() == i,
            forall|k: int| 0 <= k < i ==> #[trigger] names@[k]@ == lowered(coins@[k].name@),
            forall|k: int| 0 <= k < i ==> #[trigger] symbols@[k]@ == lowered(coins@[k].symbol@),
        decreases coins@.len() - i,
    {
        names.push(to_lowercase(coins[i].name.as_str()));
        symbols.push(to_lowercase(coins[i].symbol.as_str()));
        i = i + 1;
    }
    let r = select_coins(
        coins,
        query.as_str(),
        names.as_slice(),
        symbols.as_slice(),
        show_filter,
        favorite_coins,
        sort_by,
        sort_order,
    );
    assert(views_of(names@) =~= names_lowercased(coins@));
    assert(views_of(symbols@) =~= symbols_lowercased(coins@));
    r
}

/// Every position of `r` comes before every later one.
pub open spec fn sorted_listing(coins: Seq<Coin>, sort_by: SortBy, up: bool, r: Seq<usize>) -> bool {
    forall|k: int, l: int|
        0 <= k < l < r.len() ==> listed_before(coins, sort_by, up, #[trigger] r[k] as int, #[trigger] r[l] as int)
}

proof fn lemma_sorted_same_elements_equal(
    coins: Seq<Coin>,
    sort_by: SortBy,
    up: bool,
    r1: Seq<usize>,
    r2: Seq<usize>,
)
    requires
        sorted_listing(coins, sort_by, up, r1),
        sorted_listing(coins, sort_by, up, r2),
        forall|x: usize| r1.contains(x) <==> r2.contains(x),
    ensures
        r1 == r2,
    decreases r1.len(),
{
    if r1.len() == 0 {
        if r2.len() > 0 {
            assert(r2.contains(r2[0]));
        }
        assert(r1 =~= r2);
    } else {
        assert(r1.contains(r1[0]));
        let a: usize = r1[0];
        let b: usize = r2[0];
        if a != b {
            let m: int = choose|m: int| 0 <= m < r2.len() && r2[m] == a;
            assert(r2.contains(b));
            let k: int = choose|k: int| 0 <= k < r1.len() && r1[k] == b;
            assert(listed_before(coins, sort_by, up, r2[0] as int, r2[m] as int));
            assert(listed_before(coins, sort_by, up, r1[0] as int, r1[k] as int));
            assert(false);
        }
        let t1 = r1.drop_first();
        let t2 = r2.drop_first();
        assert forall|x: usize| t1.contains(x) <==> t2.contains(x) by {
            if t1.contains(x) {
                let k: int = choose|k: int| 0 <= k < t1.len() && t1[k] == x;
                assert(r1[k + 1] == x);
                assert(listed_before(coins, sort_by, up, r1[0] as int, r1[k + 1] as int));
                assert(r1.contains(x));
                let m: int = choose|m: int| 0 <= m < r2.len() && r2[m] == x;
                assert(m != 0);
                assert(t2[m - 1] == x);
            }
            if t2.contains(x) {
                let k: int = choose|k: int| 0 <= k < t2.len() && t2[k] == x;
                assert(r2[k + 1] == x);
                assert(listed_before(coins, sort_by, up, r2[0] as int, r2[k + 1] as int));
                assert(r2.contains(x));
                let m: int = choose|m: int| 0 <= m < r1.len() && r1[m] == x;
                assert(m != 0);
                assert(t1[m - 1] == x);
            }
        }
        assert(sorted_listing(coins, sort_by, up, t1)) by {
            assert forall|k: int, l: int| 0 <= k < l < t1.len() implies listed_before(
                coins,
                sort_by,
                up,
                #[trigger] t1[k] as int,
                #[trigger] t1[l] as int,
            ) by {
                assert(t1[k] == r1[k + 1] && t1[l] == r1[l + 1]);
            }
        }
        assert(sorted_listing(coins, sort_by, up, t2)) by {
            assert forall|k: int, l: int| 0 <= k < l < t2.len() implies listed_before(
                coins,
                sort_by,
                up,
                #[trigger] t2[k] as int,
                #[trigger] t2[l] as int,
            ) by {
                assert(t2[k] == r2[k + 1] && t2[l] == r2[l + 1]);
            }
        }
        lemma_sorted_same_elements_equal(coins, sort_by, up, t1, t2);
        assert(r1 =~= seq![a] + t1);
        assert(r2 =~= seq![b] + t2);
    }
}

/// The listing is determined by its inputs: two sequences that both list
/// the shown coins, each once, in listing order, are the same sequence.
pub proof fn listing_is_determined(
    coins: Seq<Coin>,
    query: Seq<char>,
    names_lower: Seq<Seq<char>>,
    symbols_lower: Seq<Seq<char>>,
    filter: CoinFilter,
    favorites: Set<Seq<char>>,
    sort_by: SortBy,
    up: bool,
    r1: Seq<usize>,
    r2: Seq<usize>,
)
    requires
        is_listing(coins, query, names_lower, symbols_lower, filter, favorites, sort_by, up, r1),
        is_listing(coins, query, names_lower, symbols_lower, filter, favorites, sort_by, up, r2),
    ensures
        r1 == r2,
{
    assert forall|x: usize| r1.contains(x) <==> r2.contains(x) by {
        if r1.contains(x) {
            let k: int = choose|k: int| 0 <= k < r1.len() && r1[k] == x;
            assert(r1[k] < coins.len());
        }
        if r2.contains(x) {
            let k: int = choose|k: int| 0 <= k < r2.len() && r2[k] == x;
            assert(r2[k] < coins.len());
        }
    }
    lemma_sorted_same_elements_equal(coins, sort_by, up, r1, r2);
}

/// Switching between `Ascending` and `Descending` reverses the listing when
/// no two shown coins share a value of the sort quantity.
pub proof fn opposite_orders_reverse_listing(
    coins: Seq<Coin>,
    query: Seq<char>,
    names_lower: Seq<Seq<char>>,
    symbols_lower: Seq<Seq<char>>,
    filter: CoinFilter,
    favorites: Set<Seq<char>>,
    sort_by: SortBy,
    ascending: Seq<usize>,
    descending: Seq<usize>,
)
    requires
        forall|i: int, j: int|
            0 <= i < coins.len() && 0 <= j < coins.len() && i != j && #[trigger] shown(
                coins,
                query,
                names_lower,
                symbols_lower,
                filter,
                favorites,
                i,
            ) && #[trigger] shown(coins, query, names_lower, symbols_lower, filter, favorites, j)
                ==> sort_key(coins[i], sort_by) != sort_key(coins[j], sort_by),
        is_listing(
            coins,
            query,
            names_lower,
            symbols_lower,
            filter,
            favorites,
            sort_by,
            smallest_first(sort_by, SortOrder::Ascending),
            ascending,
        ),
        is_listing(
            coins,
            query,
            names_lower,
            symbols_lower,
            filter,
            favorites,
            sort_by,
            smallest_first(sort_by, SortOrder::Descending),
            descending,
        ),
    ensures
        descending == ascending.reverse(),
{
    let up = smallest_first(sort_by, SortOrder::Ascending);
    let rev = ascending.reverse();
    let n: nat = ascending.len();
    assert forall|k: int| 0 <= k < rev.len() implies #[trigger] rev[k] < coins.len() && shown(
        coins,
        query,
        names_lower,
        symbols_lower,
        filter,
        favorites,
        rev[k] as int,
    ) by {
        assert(rev[k] == ascending[n - 1 - k]);
    }
    assert forall|i: int|
        0 <= i < coins.len() && shown(coins, query, names_lower, symbols_lower, filter, favorites, i)
            implies rev.contains(i as usize) by {
        assert(ascending.contains(i as usize));
        let k: int = choose|k: int| 0 <= k < n && ascending[k] == i as usize;
        assert(rev[n - 1 - k] == i as usize);
    }
    assert forall|k: int, l: int| 0 <= k < l < rev.len() implies listed_before(
        coins,
        sort_by,
        !up,
        #[trigger] rev[k] as int,
        #[trigger] rev[l] as int,
    ) by {
        assert(rev[k] == ascending[n - 1 - k] && rev[l] == ascending[n - 1 - l]);
        assert(listed_before(coins, sort_by, up, ascending[n - 1 - l] as int, ascending[n - 1 - k] as int));
        assert(shown(coins, query, names_lower, symbols_lower, filter, favorites, rev[k] as int));
        assert(shown(coins, query, names_lower, symbols_lower, filter, favorites, rev[l] as int));
    }
    listing_is_determined(
        coins,
        query,
        names_lower,
        symbols_lower,
        filter,
        favorites,
        sort_by,
        !up,
        descending,
        rev,
    );
}

/// Showing only favourites lists a subset of what showing all coins lists:
/// every coin of the favourites listing is a favourite and is in the full listing.
pub proof fn favorites_listing_within_all_listing(
    coins: Seq<Coin>,
    query: Seq<char>,
    names_lower: Seq<Seq<char>>,
    symbols_lower: Seq<Seq<char>>,
    favorites: Set<Seq<char>>,
    sort_by: SortBy,
    up: bool,
    only_favorites: Seq<usize>,
    all: Seq<usize>,
)
    requires
        is_listing(coins, query, names_lower, symbols_lower, CoinFilter::Favorites, favorites, sort_by, up, only_favorites),
        is_listing(coins, query, names_lower, symbols_lower, CoinFilter::All, favorites, sort_by, up, all),
    ensures
        forall|k: int| 0 <= k < only_favorites.len() ==> favorites.contains(#[trigger] coins[only_favorites[k] as int].id@)
            && all.contains(only_favorites[k]),
{
    assert forall|k: int| 0 <= k < only_favorites.len() implies favorites.contains(
        #[trigger] coins[only_favorites[k] as int].id@,
    ) && all.contains(only_favorites[k]) by {
        let i: int = only_favorites[k] as int;
        assert(shown(coins, query, names_lower, symbols_lower, CoinFilter::Favorites, favorites, i));
        assert(shown(coins, query, names_lower, symbols_lower, CoinFilter::All, favorites, i));
    }
}

/// With an empty query and all coins shown, every coin is listed.
pub proof fn empty_query_lists_every_coin(
    coins: Seq<Coin>,
    names_lower: Seq<Seq<char>>,
    symbols_lower: Seq<Seq<char>>,
    favorites: Set<Seq<char>>,
    sort_by: SortBy,
    up: bool,
    r: Seq<usize>,
)
    requires
        is_listing(coins, Seq::<char>::empty(), names_lower, symbols_lower, CoinFilter::All, favorites, sort_by, up, r),
    ensures
        forall|i: usize| i < coins.len() ==> #[trigger] r.contains(i),
{
    assert forall|i: usize| i < coins.len() implies #[trigger] r.contains(i) by {
        assert(shown(coins, Seq::<char>::empty(), names_lower, symbols_lower, CoinFilter::All, favorites, i as int));
    }
}

/// If every coin shown under the first inputs is shown under the second,
/// every coin of the first listing is in the second.
proof fn lemma_listing_within(
    coins: Seq<Coin>,
    q1: Seq<char>,
    n1: Seq<Seq<char>>,
    s1: Seq<Seq<char>>,
    f1: CoinFilter,
    fav1: Set<Seq<char>>,
    by1: SortBy,
    up1: bool,
    r1: Seq<usize>,
    q2: Seq<char>,
    n2: Seq<Seq<char>>,
    s2: Seq<Seq<char>>,
    f2: CoinFilter,
    fav2: Set<Seq<char>>,
    by2: SortBy,
    up2: bool,
    r2: Seq<usize>,
)
    requires
        is_listing(coins, q1, n1, s1, f1, fav1, by1, up1, r1),
        is_listing(coins, q2, n2, s2, f2, fav2, by2, up2, r2),
        forall|i: int|
            0 <= i < coins.len() && #[trigger] shown(coins, q1, n1, s1, f1, fav1, i) ==> shown(
                coins,
                q2,
                n2,
                s2,
                f2,
                fav2,
                i,
            ),
    ensures
        forall|k: int| 0 <= k < r1.len() ==> r2.contains(#[trigger] r1[k]),
{
    assert forall|k: int| 0 <= k < r1.len() implies r2.contains(#[trigger] r1[k]) by {
        assert(r1[k] < coins.len() && shown(coins, q1, n1, s1, f1, fav1, r1[k] as int));
    }
}

/// The listing that `get_filtered_coins` returns is determined by the coins,
/// the search text, the filter, the favourites and the chosen order.
pub proof fn filtered_listing_is_determined(
    coins: Seq<Coin>,
    search_query: Seq<char>,
    filter: CoinFilter,
    favorites: Set<Seq<char>>,
    sort_by: SortBy,
    sort_order: SortOrder,
    r1: Seq<usize>,
    r2: Seq<usize>,
)
    requires
        filtered_listing(coins, search_query, filter, favorites, sort_by, sort_order, r1),
        filtered_listing(coins, search_query, filter, favorites, sort_by, sort_order, r2),
    ensures
        r1 == r2,
{
    listing_is_determined(
        coins,
        search_key(search_query),
        names_lowercased(coins),
        symbols_lowercased(coins),
        filter,
        favorites,
        sort_by,
        smallest_first(sort_by, sort_order),
        r1,
        r2,
    );
}

/// The search ignores the case of ASCII letters and white space around the
/// text: an ASCII search text, capitalised and surrounded by white space,
/// gives the same listing as the text itself.
pub proof fn search_ignores_case_and_surrounding_space(
    coins: Seq<Coin>,
    text: Seq<char>,
    before: Seq<char>,
    after: Seq<char>,
    filter: CoinFilter,
    favorites: Set<Seq<char>>,
    sort_by: SortBy,
    sort_order: SortOrder,
    r1: Seq<usize>,
    r2: Seq<usize>,
)
    requires
        is_ascii_text(text),
        all_white_space(before),
        all_white_space(after),
        filtered_listing(coins, before + ascii_upper(text) + after, filter, favorites, sort_by, sort_order, r1),
        filtered_listing(coins, text, filter, favorites, sort_by, sort_order, r2),
    ensures
        r1 == r2,
{
    lemma_trimmed_ignores_surrounding(before, ascii_upper(text), after);
    lemma_trim_start_upper(text);
    lemma_trim_end_upper(trim_start(text));
    lemma_trimmed_ascii(text);
    lemma_trimmed_ascii(trim_start(text));
    let t = trimmed(text);
    lemma_lower_after_upper(t);
    assert(trimmed(ascii_upper(text)) == ascii_upper(t));
    assert(search_key(before + ascii_upper(text) + after) == search_key(text));
    filtered_listing_is_determined(coins, text, filter, favorites, sort_by, sort_order, r1, r2);
}

/// An empty search text trims and lowercases to the empty query.
pub proof fn empty_search_key()
    ensures
        search_key(Seq::<char>::empty()) == Seq::<char>::empty(),
{
    let e = Seq::<char>::empty();
    assert(trimmed(e) == e);
    assert(is_ascii_text(e));
    assert(ascii_lower(e) =~= e);
}

/// With an empty search text and all coins shown, every coin is listed.
pub proof fn empty_search_lists_every_coin(
    coins: Seq<Coin>,
    favorites: Set<Seq<char>>,
    sort_by: SortBy,
    sort_order: SortOrder,
    r: Seq<usize>,
)
    requires
        filtered_listing(coins, Seq::<char>::empty(), CoinFilter::All, favorites, sort_by, sort_order, r),
    ensures
        forall|i: usize| i < coins.len() ==> #[trigger] r.contains(i),
{
    empty_search_key();
    empty_query_lists_every_coin(
        coins,
        names_lowercased(coins),
        symbols_lowercased(coins),
        favorites,
        sort_by,
        smallest_first(sort_by, sort_order),
        r,
    );
}

/// A search only narrows the listing: every coin listed for a search text
/// is listed for the empty one.
pub proof fn search_only_narrows(
    coins: Seq<Coin>,
    search_query: Seq<char>,
    filter: CoinFilter,
    favorites: Set<Seq<char>>,
    sort_by: SortBy,
    sort_order: SortOrder,
    searched: Seq<usize>,
    unsearched: Seq<usize>,
)
    requires
        filtered_listing(coins, search_query, filter, favorites, sort_by, sort_order, searched),
        filtered_listing(coins, Seq::<char>::empty(), filter, favorites, sort_by, sort_order, unsearched),
    ensures
        forall|k: int| 0 <= k < searched.len() ==> unsearched.contains(#[trigger] searched[k]),
{
    empty_search_key();
    let up = smallest_first(sort_by, sort_order);
    let n = names_lowercased(coins);
    let s = symbols_lowercased(coins);
    lemma_listing_within(
        coins,
        search_key(search_query),
        n,
        s,
        filter,
        favorites,
        sort_by,
        up,
        searched,
        Seq::<char>::empty(),
        n,
        s,
        filter,
        favorites,
        sort_by,
        up,
        unsearched,
    );
}

/// More favourites list more: with the favourites of the first listing among
/// those of the second, every coin of the first is in the second.
pub proof fn more_favorites_list_more(
    coins: Seq<Coin>,
    search_query: Seq<char>,
    filter: CoinFilter,
    fewer: Set<Seq<char>>,
    more: Set<Seq<char>>,
    sort_by: SortBy,
    sort_order: SortOrder,
    r_fewer: Seq<usize>,
    r_more: Seq<usize>,
)
    requires
        fewer.subset_of(more),
        filtered_listing(coins, search_query, filter, fewer, sort_by, sort_order, r_fewer),
        filtered_listing(coins, search_query, filter, more, sort_by, sort_order, r_more),
    ensures
        forall|k: int| 0 <= k < r_fewer.len() ==> r_more.contains(#[trigger] r_fewer[k]),
{
    let q = search_key(search_query);
    let up = smallest_first(sort_by, sort_order);
    let n = names_lowercased(coins);
    let s = symbols_lowercased(coins);
    lemma_listing_within(coins, q, n, s, filter, fewer, sort_by, up, r_fewer, q, n, s, filter, more, sort_by, up, r_more);
}

/// Showing only favourites lists a subset of what showing all coins lists,
/// and only favourites.
pub proof fn favorites_filter_within_all(
    coins: Seq<Coin>,
    search_query: Seq<char>,
    favorites: Set<Seq<char>>,
    sort_by: SortBy,
    sort_order: SortOrder,
    only_favorites: Seq<usize>,
    all: Seq<usize>,
)
    requires
        filtered_listing(coins, search_query, CoinFilter::Favorites, favorites, sort_by, sort_order, only_favorites),
        filtered_listing(coins, search_query, CoinFilter::All, favorites, sort_by, sort_order, all),
    ensures
        forall|k: int| 0 <= k < only_favorites.len() ==> favorites.contains(#[trigger] coins[only_favorites[k] as int].id@)
            && all.contains(only_favorites[k]),
{
    favorites_listing_within_all_listing(
        coins,
        search_key(search_query),
        names_lowercased(coins),
        symbols_lowercased(coins),
        favorites,
        sort_by,
        smallest_first(sort_by, sort_order),
        only_favorites,
        all,
    );
}

/// The listing is ordered by the chosen quantity itself: for any two listed
/// coins, the earlier one has the smaller rank (Rank, `Ascending`), the larger
/// rank (Rank, `Descending`), the larger market value (price, market cap,
/// volume or 24h change, `Ascending`) or the smaller one (`Descending`); with
/// equal values the earlier one comes first in `coins`.
pub proof fn listing_follows_chosen_quantity(
    coins: Seq<Coin>,
    search_query: Seq<char>,
    filter: CoinFilter,
    favorites: Set<Seq<char>>,
    sort_by: SortBy,
    sort_order: SortOrder,
    r: Seq<usize>,
)
    requires
        filtered_listing(coins, search_query, filter, favorites, sort_by, sort_order, r),
    ensures
        forall|k: int, l: int|
            0 <= k < l < r.len() ==> {
                let a = coins[#[trigger] r[k] as int];
                let b = coins[#[trigger] r[l] as int];
                let asc = sort_order == SortOrder::Ascending;
                let before = r[k] < r[l];
                match sort_by {
                    SortBy::Rank => if asc {
                        a.market_cap_rank < b.market_cap_rank || (a.market_cap_rank == b.market_cap_rank && before)
                    } else {
                        a.market_cap_rank > b.market_cap_rank || (a.market_cap_rank == b.market_cap_rank && before)
                    },
                    SortBy::Price => if asc {
                        a.price_key > b.price_key || (a.price_key == b.price_key && before)
                    } else {
                        a.price_key < b.price_key || (a.price_key == b.price_key && before)
                    },
                    SortBy::MarketCap => if asc {
                        a.market_cap > b.market_cap || (a.market_cap == b.market_cap && before)
                    } else {
                        a.market_cap < b.market_cap || (a.market_cap == b.market_cap && before)
                    },
                    SortBy::Volume => if asc {
                        a.total_volume > b.total_volume || (a.total_volume == b.total_volume && before)
                    } else {
                        a.total_volume < b.total_volume || (a.total_volume == b.total_volume && before)
                    },
                    SortBy::Change24h => if asc {
                        a.change_key > b.change_key || (a.change_key == b.change_key && before)
                    } else {
                        a.change_key < b.change_key || (a.change_key == b.change_key && before)
                    },
                }
            },
{
    assert forall|k: int, l: int| 0 <= k < l < r.len() implies listed_before(
        coins,
        sort_by,
        smallest_first(sort_by, sort_order),
        #[trigger] r[k] as int,
        #[trigger] r[l] as int,
    ) by {}
}

/// Whether `c` has `q` in its lowercased name or lowercased symbol, or `q` is empty.
pub open spec fn has_text(c: Coin, q: Seq<char>) -> bool {
    q.len() == 0 || contains_seq(lowered(c.name@), q) || contains_seq(lowered(c.symbol@), q)
}

/// The search looks for the whole trimmed, lowercased search text: every
/// listed coin has it in its lowercased name or symbol (or the text is
/// empty), and every coin that has it and passes the filter is listed.
pub proof fn search_matches_whole_query(
    coins: Seq<Coin>,
    search_query: Seq<char>,
    filter: CoinFilter,
    favorites: Set<Seq<char>>,
    sort_by: SortBy,
    sort_order: SortOrder,
    r: Seq<usize>,
)
    requires
        filtered_listing(coins, search_query, filter, favorites, sort_by, sort_order, r),
    ensures
        forall|k: int|
            0 <= k < r.len() ==> has_text(coins[#[trigger] r[k] as int], lowered(trimmed(search_query)))
                && (filter == CoinFilter::Favorites ==> favorites.contains(coins[r[k] as int].id@)),
        forall|i: int|
            0 <= i < coins.len() && has_text(#[trigger] coins[i], lowered(trimmed(search_query)))
                && (filter == CoinFilter::All || favorites.contains(coins[i].id@)) ==> r.contains(i as usize),
{
    let q = search_key(search_query);
    let n = names_lowercased(coins);
    let s = symbols_lowercased(coins);
    assert forall|k: int| 0 <= k < r.len() implies has_text(coins[#[trigger] r[k] as int], q)
        && (filter == CoinFilter::Favorites ==> favorites.contains(coins[r[k] as int].id@)) by {
        let i = r[k] as int;
        assert(shown(coins, q, n, s, filter, favorites, i));
        assert(n[i] == lowered(coins[i].name@));
        assert(s[i] == lowered(coins[i].symbol@));
    }
    assert forall|i: int|
        0 <= i < coins.len() && has_text(#[trigger] coins[i], q)
            && (filter == CoinFilter::All || favorites.contains(coins[i].id@)) implies r.contains(i as usize) by {
        assert(n[i] == lowered(coins[i].name@));
        assert(s[i] == lowered(coins[i].symbol@));
        assert(shown(coins, q, n, s, filter, favorites, i));
    }
}

} // verus!

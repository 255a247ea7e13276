use crypto_analyzer::filter::{get_filtered_coins, select_coins};
use crypto_analyzer::models::Coin;
use crypto_analyzer::storage::FavoriteSet;
use crypto_analyzer::ui::{CoinFilter, SortBy, SortOrder};

fn coin(id: &str, symbol: &str, name: &str, rank: u32, cap: u64, volume: u64, price: i64, change: i64) -> Coin {
    Coin {
        id: id.to_string(),
        symbol: symbol.to_string(),
        name: name.to_string(),
        market_cap_rank: rank,
        market_cap: cap,
        total_volume: volume,
        price_key: price,
        change_key: change,
    }
}

fn market() -> Vec<Coin> {
    vec![
        coin("ethereum", "eth", "Ethereum", 2, 400, 30, 3000, -2),
        coin("bitcoin", "btc", "Bitcoin", 1, 1000, 50, 60000, 3),
        coin("tether", "usdt", "Tether", 3, 100, 70, 1, 0),
        coin("wrapped-bitcoin", "wbtc", "Wrapped Bitcoin", 4, 50, 10, 60000, 5),
    ]
}

fn list(coins: &[Coin], query: &str, filter: CoinFilter, favs: &FavoriteSet, by: SortBy, order: SortOrder) -> Vec<usize> {
    get_filtered_coins(coins, query, &filter, favs, &by, &order)
}

#[test]
fn empty_query_lists_all_by_rank() {
    let coins = market();
    let favs = FavoriteSet::new();
    assert_eq!(list(&coins, "", CoinFilter::All, &favs, SortBy::Rank, SortOrder::Ascending), vec![1, 0, 2, 3]);
}

#[test]
fn rank_descending_puts_last_rank_first() {
    let coins = market();
    let favs = FavoriteSet::new();
    assert_eq!(list(&coins, "", CoinFilter::All, &favs, SortBy::Rank, SortOrder::Descending), vec![3, 2, 0, 1]);
}

#[test]
fn search_ignores_case_and_matches_name() {
    let coins = market();
    let favs = FavoriteSet::new();
    assert_eq!(list(&coins, "BITCOIN", CoinFilter::All, &favs, SortBy::Rank, SortOrder::Ascending), vec![1, 3]);
}

#[test]
fn search_matches_symbol_inside() {
    let coins = market();
    let favs = FavoriteSet::new();
    assert_eq!(list(&coins, "btc", CoinFilter::All, &favs, SortBy::Rank, SortOrder::Ascending), vec![1, 3]);
    assert_eq!(list(&coins, "usd", CoinFilter::All, &favs, SortBy::Rank, SortOrder::Ascending), vec![2]);
}

#[test]
fn search_query_is_trimmed() {
    let coins = market();
    let favs = FavoriteSet::new();
    assert_eq!(list(&coins, "  Eth \t", CoinFilter::All, &favs, SortBy::Rank, SortOrder::Ascending), vec![0, 2]);
}

#[test]
fn search_with_no_match_is_empty() {
    let coins = market();
    let favs = FavoriteSet::new();
    assert_eq!(list(&coins, "doge", CoinFilter::All, &favs, SortBy::Rank, SortOrder::Ascending), Vec::<usize>::new());
}

#[test]
fn favorites_filter_keeps_only_favorites() {
    let coins = market();
    let mut favs = FavoriteSet::new();
    favs.insert("tether".to_string());
    favs.insert("bitcoin".to_string());
    assert_eq!(list(&coins, "", CoinFilter::Favorites, &favs, SortBy::Rank, SortOrder::Ascending), vec![1, 2]);
    assert_eq!(list(&coins, "", CoinFilter::All, &favs, SortBy::Rank, SortOrder::Ascending), vec![1, 0, 2, 3]);
}

#[test]
fn favorites_filter_without_favorites_is_empty() {
    let coins = market();
    let favs = FavoriteSet::new();
    assert!(list(&coins, "", CoinFilter::Favorites, &favs, SortBy::Rank, SortOrder::Ascending).is_empty());
}

#[test]
fn price_ascending_lists_highest_price_first_keeping_ties_in_order() {
    let coins = market();
    let favs = FavoriteSet::new();
    assert_eq!(list(&coins, "", CoinFilter::All, &favs, SortBy::Price, SortOrder::Ascending), vec![1, 3, 0, 2]);
}

#[test]
fn price_descending_lists_lowest_price_first_keeping_ties_in_order() {
    let coins = market();
    let favs = FavoriteSet::new();
    assert_eq!(list(&coins, "", CoinFilter::All, &favs, SortBy::Price, SortOrder::Descending), vec![2, 0, 1, 3]);
}

#[test]
fn market_cap_volume_and_change_orders() {
    let coins = market();
    let favs = FavoriteSet::new();
    assert_eq!(list(&coins, "", CoinFilter::All, &favs, SortBy::MarketCap, SortOrder::Ascending), vec![1, 0, 2, 3]);
    assert_eq!(list(&coins, "", CoinFilter::All, &favs, SortBy::Volume, SortOrder::Ascending), vec![2, 1, 0, 3]);
    assert_eq!(list(&coins, "", CoinFilter::All, &favs, SortBy::Volume, SortOrder::Descending), vec![3, 0, 1, 2]);
    assert_eq!(list(&coins, "", CoinFilter::All, &favs, SortBy::Change24h, SortOrder::Ascending), vec![3, 1, 2, 0]);
    assert_eq!(list(&coins, "", CoinFilter::All, &favs, SortBy::Change24h, SortOrder::Descending), vec![0, 2, 1, 3]);
}

#[test]
fn opposite_orders_reverse_distinct_keys() {
    let coins = market();
    let favs = FavoriteSet::new();
    let mut up = list(&coins, "", CoinFilter::All, &favs, SortBy::MarketCap, SortOrder::Ascending);
    let down = list(&coins, "", CoinFilter::All, &favs, SortBy::MarketCap, SortOrder::Descending);
    up.reverse();
    assert_eq!(up, down);
}

#[test]
fn empty_market_lists_nothing() {
    let favs = FavoriteSet::new();
    assert!(list(&[], "btc", CoinFilter::All, &favs, SortBy::Rank, SortOrder::Ascending).is_empty());
}

#[test]
fn select_coins_uses_given_lowercased_texts() {
    let coins = market();
    let favs = FavoriteSet::new();
    let names: Vec<String> = vec!["x".to_string(), "ab".to_string(), "abc".to_string(), "y".to_string()];
    let symbols: Vec<String> = vec!["b".to_string(), "q".to_string(), "r".to_string(), "zab".to_string()];
    let r = select_coins(&coins, "ab", &names, &symbols, &CoinFilter::All, &favs, &SortBy::Rank, &SortOrder::Ascending);
    assert_eq!(r, vec![1, 2, 3]);
    let all = select_coins(&coins, "", &names, &symbols, &CoinFilter::All, &favs, &SortBy::Rank, &SortOrder::Ascending);
    assert_eq!(all, vec![1, 0, 2, 3]);
}

#[test]
fn select_coins_query_is_taken_as_given() {
    let coins = market();
    let favs = FavoriteSet::new();
    let names: Vec<String> = vec!["Ab".to_string(); 4];
    let symbols: Vec<String> = vec!["q".to_string(); 4];
    let r = select_coins(&coins, "ab", &names, &symbols, &CoinFilter::All, &favs, &SortBy::Rank, &SortOrder::Ascending);
    assert!(r.is_empty());
}

#[test]
fn unicode_names_are_lowercased() {
    let coins = vec![coin("x", "ÄÖ", "Ärger", 1, 1, 1, 1, 1)];
    let favs = FavoriteSet::new();
    assert_eq!(list(&coins, "äö", CoinFilter::All, &favs, SortBy::Rank, SortOrder::Ascending), vec![0]);
    assert_eq!(list(&coins, "ÄRG", CoinFilter::All, &favs, SortBy::Rank, SortOrder::Ascending), vec![0]);
}

#[test]
fn capitals_and_surrounding_space_do_not_change_the_listing() {
    let coins = market();
    let favs = FavoriteSet::new();
    let plain = list(&coins, "bit", CoinFilter::All, &favs, SortBy::Price, SortOrder::Ascending);
    let dressed = list(&coins, "\t BIT \n", CoinFilter::All, &favs, SortBy::Price, SortOrder::Ascending);
    assert_eq!(plain, dressed);
    assert_eq!(plain, vec![1, 3]);
}

#[test]
fn white_space_only_search_lists_everything() {
    let coins = market();
    let favs = FavoriteSet::new();
    assert_eq!(list(&coins, " \u{3000}\t", CoinFilter::All, &favs, SortBy::Rank, SortOrder::Ascending), vec![1, 0, 2, 3]);
}

#[test]
fn more_favorites_list_more_coins() {
    let coins = market();
    let mut favs = FavoriteSet::new();
    favs.insert("tether".to_string());
    let fewer = list(&coins, "", CoinFilter::Favorites, &favs, SortBy::Rank, SortOrder::Ascending);
    favs.insert("ethereum".to_string());
    let more = list(&coins, "", CoinFilter::Favorites, &favs, SortBy::Rank, SortOrder::Ascending);
    assert_eq!(fewer, vec![2]);
    assert_eq!(more, vec![0, 2]);
}

#[test]
fn distinct_shown_keys_reverse_with_order_despite_hidden_ties() {
    let coins = vec![
        coin("a", "a", "alpha", 1, 10, 1, 5, 0),
        coin("b", "b", "beta", 2, 20, 1, 7, 0),
        coin("c", "c", "zzz", 3, 10, 1, 5, 0),
    ];
    let favs = FavoriteSet::new();
    let mut up = list(&coins, "a", CoinFilter::All, &favs, SortBy::MarketCap, SortOrder::Ascending);
    let down = list(&coins, "a", CoinFilter::All, &favs, SortBy::MarketCap, SortOrder::Descending);
    assert_eq!(up, vec![1, 0]);
    up.reverse();
    assert_eq!(up, down);
}

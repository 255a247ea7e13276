use crypto_analyzer::models::{Coin, CoinDetails};
use crypto_analyzer::storage::FavoriteSet;
use crypto_analyzer::ui::{
    per_page_choices, refresh_interval_choices, AppScreen, CoinFilter, CryptoApp, SelectedCoin, Settings, SortBy, SortOrder,
};

fn coin(id: &str, rank: u32) -> Coin {
    Coin {
        id: id.to_string(),
        symbol: id.to_string(),
        name: id.to_string(),
        market_cap_rank: rank,
        market_cap: 0,
        total_volume: 0,
        price_key: 0,
        change_key: 0,
    }
}

fn app() -> CryptoApp<u8> {
    CryptoApp::new(vec![coin("b", 2), coin("a", 1)], Ok(FavoriteSet::new()), 1_000, 50)
}

#[test]
fn new_sets_defaults() {
    let a = app();
    assert_eq!(a.per_page, 10);
    assert_eq!(a.last_updated_ms, 1_000);
    assert_eq!(a.last_refresh_ms, 50);
    assert!(a.search_query.is_empty());
    assert!(a.sort_by == SortBy::Rank);
    assert!(a.sort_order == SortOrder::Ascending);
    assert!(a.show_filter == CoinFilter::All);
    assert!(a.current_screen == AppScreen::Dashboard);
    assert!(a.settings == Settings { auto_refresh: false, refresh_interval: 10 });
    assert!(!a.is_refreshing && !a.show_settings);
    assert!(a.error_message.is_none() && a.error_time_ms.is_none());
    assert!(a.selected_coin_id.is_none() && a.coin_details.is_none() && a.chart_data.is_none());
}

#[test]
fn new_shows_favorites_load_error() {
    let a: CryptoApp<u8> = CryptoApp::new(Vec::new(), Err("bad file".to_string()), 7, 0);
    assert_eq!(a.error_message, Some("bad file".to_string()));
    assert_eq!(a.error_time_ms, Some(7));
    assert_eq!(a.favorite_coins.len(), 0);
}

#[test]
fn market_data_success_replaces_listing_and_clears_error() {
    let mut a = app();
    a.save_failed("disk".to_string(), 5);
    a.refresh_clicked(60);
    a.receive_market_data(Ok(vec![coin("c", 1)]), 9_000);
    assert_eq!(a.coins.len(), 1);
    assert_eq!(a.last_updated_ms, 9_000);
    assert!(!a.is_refreshing);
    assert!(a.error_message.is_none() && a.error_time_ms.is_none());
}

#[test]
fn market_data_failure_is_shown_for_a_while() {
    let mut a = app();
    a.refresh_clicked(60);
    a.receive_market_data(Err("timeout".to_string()), 9_000);
    assert!(!a.is_refreshing);
    assert_eq!(a.coins.len(), 2);
    assert_eq!(a.error_message, Some("timeout".to_string()));
    assert_eq!(a.error_time_ms, Some(9_000));
    a.expire_error(11_999);
    assert_eq!(a.error_message, Some("timeout".to_string()));
    a.expire_error(12_000);
    assert!(a.error_message.is_none() && a.error_time_ms.is_none());
}

#[test]
fn timed_error_expires_after_three_seconds() {
    let mut a = app();
    a.save_failed("disk".to_string(), 10_000);
    a.expire_error(12_999);
    assert_eq!(a.error_message, Some("disk".to_string()));
    a.expire_error(13_000);
    assert!(a.error_message.is_none() && a.error_time_ms.is_none());
}

#[test]
fn timed_error_ignores_earlier_clock() {
    let mut a = app();
    a.save_failed("disk".to_string(), 10_000);
    a.expire_error(-5_000);
    assert_eq!(a.error_message, Some("disk".to_string()));
}

#[test]
fn refresh_is_not_repeated_while_in_flight() {
    let mut a = app();
    assert_eq!(a.refresh_clicked(100), Some(10));
    assert!(a.is_refreshing);
    assert_eq!(a.last_refresh_ms, 100);
    assert_eq!(a.refresh_clicked(200), None);
    assert_eq!(a.last_refresh_ms, 100);
    a.receive_market_data(Ok(Vec::new()), 0);
    a.per_page = 50;
    assert_eq!(a.refresh_clicked(300), Some(50));
}

#[test]
fn auto_refresh_waits_for_interval() {
    let mut a = app();
    assert_eq!(a.poll_auto_refresh(1_000_000), None);
    a.settings.auto_refresh = true;
    a.settings.refresh_interval = 5;
    assert_eq!(a.poll_auto_refresh(5_049), None);
    assert_eq!(a.poll_auto_refresh(5_050), Some(10));
    assert_eq!(a.last_refresh_ms, 5_050);
    assert_eq!(a.poll_auto_refresh(20_000), None);
    a.receive_market_data(Ok(Vec::new()), 0);
    assert_eq!(a.poll_auto_refresh(9_000), None);
    assert_eq!(a.poll_auto_refresh(10_050), Some(10));
}

#[test]
fn auto_refresh_with_earlier_clock_counts_zero() {
    let mut a: CryptoApp<u8> = CryptoApp::new(Vec::new(), Ok(FavoriteSet::new()), 0, 10_000);
    a.settings.auto_refresh = true;
    a.settings.refresh_interval = 0;
    assert_eq!(a.poll_auto_refresh(0), Some(10));
}

#[test]
fn coin_click_opens_details_and_drops_stale_data() {
    let mut a = app();
    a.receive_details(Ok(CoinDetails { homepage: vec!["x".to_string()] }), 0);
    a.receive_chart(Ok(3), 0);
    let id = a.coin_clicked("a".to_string());
    assert_eq!(id, "a".to_string());
    assert!(a.current_screen == AppScreen::CoinDetails);
    assert_eq!(a.selected_coin_id, Some("a".to_string()));
    assert!(a.coin_details.is_none());
    assert!(a.chart_data.is_none());
    assert!(matches!(a.selected_coin(), SelectedCoin::Found(1)));
    a.back_clicked();
    assert!(a.current_screen == AppScreen::Dashboard);
    assert_eq!(a.selected_coin_id, Some("a".to_string()));
}

#[test]
fn selected_coin_cases() {
    let mut a = app();
    assert!(matches!(a.selected_coin(), SelectedCoin::NoneSelected));
    a.coin_clicked("zzz".to_string());
    assert!(matches!(a.selected_coin(), SelectedCoin::NotFound));
}

#[test]
fn details_and_chart_failures_are_shown_for_a_while() {
    let mut a = app();
    a.receive_details(Err("no details".to_string()), 100);
    assert_eq!(a.error_message, Some("no details".to_string()));
    assert_eq!(a.error_time_ms, Some(100));
    a.receive_chart(Err("no chart".to_string()), 2_000);
    assert_eq!(a.error_message, Some("no chart".to_string()));
    assert_eq!(a.error_time_ms, Some(100));
    assert!(a.chart_data.is_none());
    a.expire_error(3_099);
    assert_eq!(a.error_message, Some("no chart".to_string()));
    a.expire_error(3_100);
    assert!(a.error_message.is_none());
    a.receive_chart(Err("again".to_string()), 7_000);
    assert_eq!(a.error_time_ms, Some(7_000));
}

#[test]
fn menu_choices() {
    assert_eq!(per_page_choices(), vec![10, 20, 50, 100]);
    assert_eq!(refresh_interval_choices(), vec![5, 10, 30, 60]);
}

#[test]
fn favorite_click_toggles_and_returns_data_to_store() {
    let mut a = app();
    let d = a.favorite_clicked("a".to_string());
    assert_eq!(d.favorites, vec!["a".to_string()]);
    assert!(a.favorite_coins.contains(&"a".to_string()));
    let d = a.favorite_clicked("a".to_string());
    assert!(d.favorites.is_empty());
    assert_eq!(a.favorite_coins.len(), 0);
}

#[test]
fn app_listing_follows_state() {
    let mut a = app();
    assert_eq!(a.get_filtered_coins(), vec![1, 0]);
    a.sort_order = SortOrder::Descending;
    assert_eq!(a.get_filtered_coins(), vec![0, 1]);
    a.search_query = "A".to_string();
    assert_eq!(a.get_filtered_coins(), vec![1]);
    a.search_query.clear();
    a.show_filter = CoinFilter::Favorites;
    assert!(a.get_filtered_coins().is_empty());
    a.favorite_clicked("b".to_string());
    assert_eq!(a.get_filtered_coins(), vec![0]);
}

#[test]
fn defaults_of_options() {
    assert!(AppScreen::default() == AppScreen::Dashboard);
    assert!(CoinFilter::default() == CoinFilter::All);
    assert!(SortBy::default() == SortBy::Rank);
    assert!(SortOrder::default() == SortOrder::Ascending);
}

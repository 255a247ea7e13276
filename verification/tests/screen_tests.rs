use crypto_analyzer::client::{chart_data_url, coin_details_url, market_data_url};
use crypto_analyzer::dashboard::{empty_list_message, favorite_icon};
use crypto_analyzer::details::{date_part, homepage_view, HomepageView};
use crypto_analyzer::format::{format_timestamp_millis, text_or_dash};
use crypto_analyzer::models::CoinDetails;
use crypto_analyzer::text::{chars_of, contains_str, decimal_string};
use crypto_analyzer::ui::CoinFilter;

#[test]
fn market_data_url_has_all_parameters() {
    assert_eq!(
        market_data_url(10),
        "https://api.coingecko.com/api/v3/coins/markets?vs_currency=usd&order=market_cap_desc&per_page=10&page=1"
    );
    assert!(market_data_url(100).ends_with("per_page=100&page=1"));
}

#[test]
fn coin_details_url_appends_id() {
    assert_eq!(coin_details_url("bitcoin"), "https://api.coingecko.com/api/v3/coins/bitcoin");
}

#[test]
fn chart_data_url_asks_for_one_day_in_usd() {
    assert_eq!(
        chart_data_url("bitcoin"),
        "https://api.coingecko.com/api/v3/coins/bitcoin/market_chart?vs_currency=usd&days=1"
    );
}

#[test]
fn favorite_icons() {
    assert_eq!(favorite_icon(true), "★");
    assert_eq!(favorite_icon(false), "☆");
}

#[test]
fn empty_list_messages() {
    assert_eq!(empty_list_message(&CoinFilter::Favorites, 0), "You haven't added any favorite coins yet.");
    assert_eq!(empty_list_message(&CoinFilter::Favorites, 3), "No favorite coins match your search.");
    assert_eq!(empty_list_message(&CoinFilter::All, 0), "No coins match your search.");
}

#[test]
fn homepage_views() {
    assert!(matches!(homepage_view(&None), HomepageView::Loading));
    let d = Some(CoinDetails { homepage: vec!["https://bitcoin.org".to_string(), "x".to_string()] });
    match homepage_view(&d) {
        HomepageView::Link(h) => assert_eq!(h, "https://bitcoin.org"),
        _ => panic!("expected a link"),
    }
    let empty_first = Some(CoinDetails { homepage: vec![String::new(), "x".to_string()] });
    assert!(matches!(homepage_view(&empty_first), HomepageView::Unavailable));
    let none = Some(CoinDetails { homepage: Vec::new() });
    assert!(matches!(homepage_view(&none), HomepageView::Unavailable));
}

#[test]
fn date_part_cuts_at_first_t() {
    assert_eq!(date_part("2024-05-01T12:30:00.000Z"), "2024-05-01");
    assert_eq!(date_part("2024-05-01"), "2024-05-01");
    assert_eq!(date_part("T12"), "");
    assert_eq!(date_part(""), "");
    assert_eq!(date_part("aTbTc"), "a");
}

#[test]
fn timestamps_format_in_utc_minutes() {
    assert_eq!(format_timestamp_millis(0), "1970-01-01 00:00");
    assert_eq!(format_timestamp_millis(1_700_000_000_000), "2023-11-14 22:13");
    assert_eq!(format_timestamp_millis(-60_000), "1969-12-31 23:59");
    assert_eq!(format_timestamp_millis(i64::MAX), "-");
    assert_eq!(format_timestamp_millis(i64::MIN), "-");
}

#[test]
fn text_or_dash_cases() {
    assert_eq!(text_or_dash(None), "-");
    assert_eq!(text_or_dash(Some("x".to_string())), "x");
}

#[test]
fn decimal_strings() {
    assert_eq!(decimal_string(0), "0");
    assert_eq!(decimal_string(7), "7");
    assert_eq!(decimal_string(10), "10");
    assert_eq!(decimal_string(1234567890), "1234567890");
    assert_eq!(decimal_string(u64::MAX), u64::MAX.to_string());
}

#[test]
fn substring_search() {
    assert!(contains_str("bitcoin", "coin"));
    assert!(contains_str("bitcoin", ""));
    assert!(contains_str("", ""));
    assert!(!contains_str("", "a"));
    assert!(!contains_str("coin", "coins"));
    assert!(contains_str("aaab", "aab"));
    assert!(contains_str("ärger", "rg"));
}

#[test]
fn chars_of_splits_characters() {
    assert_eq!(chars_of("aé☆"), vec!['a', 'é', '☆']);
    assert!(chars_of("").is_empty());
}

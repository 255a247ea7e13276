//! Screens, listing options and settings of the application.

use vstd::prelude::*;

use crate::filter::get_filtered_coins;
use crate::models::{Coin, CoinDetails};
use crate::storage::{favorites_to_data, FavoriteSet, FavoritesData};
use crate::text::views_of;

verus! {

/// Which screen the application shows.
#[derive(Clone, Copy, PartialEq, Eq, Structural)]
pub enum AppScreen {
    Dashboard,
    CoinDetails,
}

impl Default for AppScreen {
    fn default() -> (s: Self)
        ensures
            s == AppScreen::Dashboard,
    {
        AppScreen::Dashboard
    }
}

/// Which coins the listing shows.
#[derive(Clone, Copy, PartialEq, Eq, Structural)]
pub enum CoinFilter {
    All,
    Favorites,
}

impl Default for CoinFilter {
    fn default() -> (f: Self)
        ensures
            f == CoinFilter::All,
    {
        CoinFilter::All
    }
}

/// The quantity by which the listing is ordered.
#[derive(Clone, Copy, PartialEq, Eq, Structural)]
pub enum SortBy {
    Rank,
    Price,
    MarketCap,
    Volume,
    Change24h,
}

impl Default for SortBy {
    fn default() -> (s: Self)
        ensures
            s == SortBy::Rank,
    {
        SortBy::Rank
    }
}

/// The direction chosen for the listing.
#[derive(Clone, Copy, PartialEq, Eq, Structural)]
pub enum SortOrder {
    Ascending,
    Descending,
}

impl Default for SortOrder {
    fn default() -> (s: Self)
        ensures
            s == SortOrder::Ascending,
    {
        SortOrder::Ascending
    }
}

/// Automatic refresh settings.
#[derive(Clone, Copy, PartialEq, Eq, Structural)]
pub struct Settings {
    pub auto_refresh: bool,
    /// Seconds between two automatic refreshes.
    pub refresh_interval: u64,
}

/// Which coin the detail screen is about.
pub enum SelectedCoin {
    /// No coin has been chosen.
    NoneSelected,
    /// The chosen id is not in the current listing.
    NotFound,
    /// The position of the first coin with the chosen id.
    Found(usize),
}

/// The state of the application between two frames.
///
/// `Ch` is the chart data of the chosen coin, which the library carries but
/// does not read. Times are milliseconds: `*_ms` fields of wall-clock time
/// since the Unix epoch, and `last_refresh_ms` of a monotonic clock.
pub struct CryptoApp<Ch> {
    pub coins: Vec<Coin>,
    pub per_page: u32,
    pub last_updated_ms: i64,
    pub search_query: String,
    pub sort_by: SortBy,
    pub sort_order: SortOrder,
    pub selected_coin_id: Option<String>,
    pub coin_details: Option<CoinDetails>,
    pub chart_data: Option<Ch>,
    pub current_screen: AppScreen,
    pub favorite_coins: FavoriteSet,
    pub show_filter: CoinFilter,
    pub error_message: Option<String>,
    pub error_time_ms: Option<i64>,
    pub settings: Settings,
    pub show_settings: bool,
    pub is_refreshing: bool,
    pub last_refresh_ms: u64,
    /// Listing requests asked for by the steps below (`refresh_clicked`,
    /// `poll_auto_refresh`) whose result has not been passed to
    /// `receive_market_data` yet.
    pub listing_requests_in_flight: Ghost<nat>,
}

/// The numbers of coins that the listing can be set to show.
pub open spec fn is_per_page_choice(n: u32) -> bool {
    n == 10 || n == 20 || n == 50 || n == 100
}

/// The numbers of seconds that the automatic refresh interval can be set to.
pub open spec fn is_refresh_interval_choice(n: u64) -> bool {
    n == 5 || n == 10 || n == 30 || n == 60
}

/// The numbers of coins that the listing can be set to show, in menu order.
pub fn per_page_choices() -> (choices: Vec<u32>)
    ensures
        choices@ == seq![10u32, 20, 50, 100],
        forall|n: u32| choices@.contains(n) <==> is_per_page_choice(n),
{
    let choices: Vec<u32> = vec![10, 20, 50, 100];
    proof {
        assert(choices@[0] == 10 && choices@[1] == 20 && choices@[2] == 50 && choices@[3] == 100);
    }
    choices
}

/// The automatic refresh intervals in seconds, in menu order.
pub fn refresh_interval_choices() -> (choices: Vec<u64>)
    ensures
        choices@ == seq![5u64, 10, 30, 60],
        forall|n: u64| choices@.contains(n) <==> is_refresh_interval_choice(n),
{
    let choices: Vec<u64> = vec![5, 10, 30, 60];
    proof {
        assert(choices@[0] == 5 && choices@[1] == 10 && choices@[2] == 30 && choices@[3] == 60);
    }
    choices
}

/// The time of an error shown at `now_ms`: that of the error already on
/// screen, if any, and `now_ms` otherwise.
pub open spec fn error_time_after(current: Option<i64>, now_ms: i64) -> i64 {
    match current {
        Some(t) => t,
        None => now_ms,
    }
}

fn keep_error_time(current: Option<i64>, now_ms: i64) -> (t: i64)
    ensures
        t == error_time_after(current, now_ms),
{
    match current {
        Some(t) => t,
        None => now_ms,
    }
}

/// One less than `n`, but not below zero.
pub open spec fn one_fewer(n: nat) -> nat {
    if n > 0 { (n - 1) as nat } else { 0 }
}

/// How long an error that carries a time stays on screen, in milliseconds.
pub const ERROR_DISPLAY_MS: i64 = 3000;

/// `set` with `id` removed when it holds it, and added otherwise.
pub open spec fn toggled(set: Set<Seq<char>>, id: Seq<char>) -> Set<Seq<char>> {
    if set.contains(id) {
        set.remove(id)
    } else {
        set.insert(id)
    }
}

impl<Ch> CryptoApp<Ch> {
    /// What every step keeps: an error with a time has a message, and the
    /// detail screen is shown only for a chosen coin.
    pub open spec fn wf(&self) -> bool {
        &&& (self.error_message is Some <==> self.error_time_ms is Some)
        &&& self.current_screen == AppScreen::CoinDetails ==> self.selected_coin_id is Some
        &&& is_per_page_choice(self.per_page)
        &&& is_refresh_interval_choice(self.settings.refresh_interval)
        &&& self.listing_requests_in_flight@ == (if self.is_refreshing { 1nat } else { 0nat })
    }

    /// The state at start-up, with the first market listing `coins` and the
    /// outcome of loading the stored favourites; a loading error is shown,
    /// timed from `now_ms`, and leaves no favourites.
    pub fn new(
        coins: Vec<Coin>,
        loaded_favorites: Result<FavoriteSet, String>,
        now_ms: i64,
        now_mono_ms: u64,
    ) -> (app: Self)
        ensures
            app.wf(),
            app.coins == coins,
            app.per_page == 10,
            app.last_updated_ms == now_ms,
            app.search_query@ == Seq::<char>::empty(),
            app.sort_by == SortBy::Rank,
            app.sort_order == SortOrder::Ascending,
            app.selected_coin_id is None,
            app.coin_details is None,
            app.chart_data is None,
            app.current_screen == AppScreen::Dashboard,
            app.show_filter == CoinFilter::All,
            app.settings == (Settings { auto_refresh: false, refresh_interval: 10 }),
            !app.show_settings,
            !app.is_refreshing,
            app.last_refresh_ms == now_mono_ms,
            match loaded_favorites {
                Ok(f) => {
                    &&& app.favorite_coins == f
                    &&& app.error_message is None
                    &&& app.error_time_ms is None
                },
                Err(e) => {
                    &&& app.favorite_coins@ == Set::<Seq<char>>::empty()
                    &&& app.error_message == Some(e)
                    &&& app.error_time_ms == Some(now_ms)
                },
            },
    {
        let mut error_message: Option<String> = None;
        let mut error_time_ms: Option<i64> = None;
        let favorite_coins = match loaded_favorites {
            Ok(favorites) => favorites,
            Err(error) => {
                error_message = Some(error);
                error_time_ms = Some(now_ms);
                FavoriteSet::new()
            },
        };
        CryptoApp {
            coins,
            per_page: 10,
            last_updated_ms: now_ms,
            search_query: String::new(),
            sort_by: SortBy::Rank,
            sort_order: SortOrder::Ascending,
            selected_coin_id: None,
            coin_details: None,
            chart_data: None,
            current_screen: AppScreen::Dashboard,
            favorite_coins,
            show_filter: CoinFilter::All,
            error_message,
            error_time_ms,
            settings: Settings { auto_refresh: false, refresh_interval: 10 },
            show_settings: false,
            is_refreshing: false,
            last_refresh_ms: now_mono_ms,
            listing_requests_in_flight: Ghost(0),
        }
    }

    /// A market listing request has ended at `now_ms`: a new listing replaces
    /// the old one and clears any error; a failure is shown, timed from `now_ms`.
    pub fn receive_market_data(&mut self, result: Result<Vec<Coin>, String>, now_ms: i64)
        ensures
            old(self).wf() ==> final(self).wf(),
            match result {
                Ok(coins) => *final(self) == (CryptoApp {
                    coins,
                    last_updated_ms: now_ms,
                    error_message: None,
                    error_time_ms: None,
                    is_refreshing: false,
                    listing_requests_in_flight: Ghost(one_fewer(old(self).listing_requests_in_flight@)),
                    ..*old(self)
                }),
                Err(e) => *final(self) == (CryptoApp {
                    error_message: Some(e),
                    error_time_ms: Some(now_ms),
                    is_refreshing: false,
                    listing_requests_in_flight: Ghost(one_fewer(old(self).listing_requests_in_flight@)),
                    ..*old(self)
                }),
            },
    {
        self.is_refreshing = false;
        self.listing_requests_in_flight = Ghost(one_fewer(self.listing_requests_in_flight@));
        match result {
            Ok(coins) => {
                self.coins = coins;
                self.last_updated_ms = now_ms;
                self.error_message = None;
                self.error_time_ms = None;
            },
            Err(error) => {
                self.error_message = Some(error);
                self.error_time_ms = Some(now_ms);
            },
        }
    }

    /// A detail request has ended at `now_ms`: the details are kept, or the
    /// failure is shown, timed from the error already on screen if there is
    /// one, and from `now_ms` otherwise.
    pub fn receive_details(&mut self, result: Result<CoinDetails, String>, now_ms: i64)
        ensures
            old(self).wf() ==> final(self).wf(),
            match result {
                Ok(d) => *final(self) == (CryptoApp { coin_details: Some(d), ..*old(self) }),
                Err(e) => *final(self) == (CryptoApp {
                    error_message: Some(e),
                    error_time_ms: Some(error_time_after(old(self).error_time_ms, now_ms)),
                    ..*old(self)
                }),
            },
    {
        match result {
            Ok(details) => {
                self.coin_details = Some(details);
            },
            Err(error) => {
                self.error_message = Some(error);
                self.error_time_ms = Some(keep_error_time(self.error_time_ms, now_ms));
            },
        }
    }

    /// A chart request has ended at `now_ms`: the chart is kept, or the
    /// failure is shown, timed from the error already on screen if there is
    /// one, and from `now_ms` otherwise.
    pub fn receive_chart(&mut self, result: Result<Ch, String>, now_ms: i64)
        ensures
            old(self).wf() ==> final(self).wf(),
            match result {
                Ok(c) => *final(self) == (CryptoApp { chart_data: Some(c), ..*old(self) }),
                Err(e) => *final(self) == (CryptoApp {
                    error_message: Some(e),
                    error_time_ms: Some(error_time_after(old(self).error_time_ms, now_ms)),
                    ..*old(self)
                }),
            },
    {
        match result {
            Ok(chart) => {
                self.chart_data = Some(chart);
            },
            Err(error) => {
                self.error_message = Some(error);
                self.error_time_ms = Some(keep_error_time(self.error_time_ms, now_ms));
            },
        }
    }

    /// Clears an error that carries a time once `ERROR_DISPLAY_MS` or more
    /// have passed since it; an error without a time stays.
    pub fn expire_error(&mut self, now_ms: i64)
        ensures
            old(self).wf() ==> final(self).wf(),
            match old(self).error_time_ms {
                Some(t) => if now_ms - t >= ERROR_DISPLAY_MS {
                    *final(self) == (CryptoApp { error_message: None, error_time_ms: None, ..*old(self) })
                } else {
                    *final(self) == *old(self)
                },
                None => *final(self) == *old(self),
            },
    {
        if let Some(time) = self.error_time_ms {
            if (now_ms as i128) - (time as i128) >= ERROR_DISPLAY_MS as i128 {
                self.error_message = None;
                self.error_time_ms = None;
            }
        }
    }

    /// Starts a refresh of the market listing: nothing happens while one is
    /// in flight; otherwise the refresh is marked as running, its start time
    /// noted, and the number of coins to request is returned.
    fn start_refresh(&mut self, now_mono_ms: u64) -> (fetch: Option<u32>)
        ensures
            old(self).wf() ==> final(self).wf(),
            if old(self).is_refreshing {
                fetch is None && *final(self) == *old(self)
            } else {
                &&& fetch == Some(old(self).per_page)
                &&& *final(self) == (CryptoApp {
                    is_refreshing: true,
                    last_refresh_ms: now_mono_ms,
                    listing_requests_in_flight: Ghost(old(self).listing_requests_in_flight@ + 1),
                    ..*old(self)
                })
            },
    {
        if self.is_refreshing {
            return None;
        }
        self.is_refreshing = true;
        self.last_refresh_ms = now_mono_ms;
        self.listing_requests_in_flight = Ghost(self.listing_requests_in_flight@ + 1);
        Some(self.per_page)
    }

    /// The refresh button was pressed; returns the number of coins to request,
    /// if a request is to be sent.
    pub fn refresh_clicked(&mut self, now_mono_ms: u64) -> (fetch: Option<u32>)
        ensures
            old(self).wf() ==> final(self).wf(),
            if old(self).is_refreshing {
                fetch is None && *final(self) == *old(self)
            } else {
                &&& fetch == Some(old(self).per_page)
                &&& *final(self) == (CryptoApp {
                    is_refreshing: true,
                    last_refresh_ms: now_mono_ms,
                    listing_requests_in_flight: Ghost(old(self).listing_requests_in_flight@ + 1),
                    ..*old(self)
                })
            },
    {
        self.start_refresh(now_mono_ms)
    }

    /// Whether an automatic refresh is due at `now_mono_ms`: it is switched
    /// on, none is in flight, and at least `refresh_interval` whole seconds
    /// have passed since the last refresh started.
    pub open spec fn auto_refresh_due(&self, now_mono_ms: u64) -> bool {
        &&& self.settings.auto_refresh
        &&& !self.is_refreshing
        &&& (if now_mono_ms >= self.last_refresh_ms { (now_mono_ms - self.last_refresh_ms) as int } else { 0 }) / 1000
            >= self.settings.refresh_interval
    }

    /// Once per frame: starts an automatic refresh when one is due, and returns
    /// the number of coins to request, if a request is to be sent.
    pub fn poll_auto_refresh(&mut self, now_mono_ms: u64) -> (fetch: Option<u32>)
        ensures
            old(self).wf() ==> final(self).wf(),
            if old(self).auto_refresh_due(now_mono_ms) {
                &&& fetch == Some(old(self).per_page)
                &&& *final(self) == (CryptoApp {
                    is_refreshing: true,
                    last_refresh_ms: now_mono_ms,
                    listing_requests_in_flight: Ghost(old(self).listing_requests_in_flight@ + 1),
                    ..*old(self)
                })
            } else {
                fetch is None && *final(self) == *old(self)
            },
            fetch is Some <==> {
                &&& old(self).settings.auto_refresh
                &&& !old(self).is_refreshing
                &&& (old(self).settings.refresh_interval == 0 || (now_mono_ms >= old(self).last_refresh_ms
                    && now_mono_ms - old(self).last_refresh_ms >= 1000 * old(self).settings.refresh_interval))
            },
    {
        proof {
            auto_refresh_waits_for_interval(*self, now_mono_ms);
        }
        let elapsed_secs: u64 = now_mono_ms.saturating_sub(self.last_refresh_ms) / 1000;
        if self.settings.auto_refresh && !self.is_refreshing && elapsed_secs >= self.settings.refresh_interval {
            self.start_refresh(now_mono_ms)
        } else {
            None
        }
    }

    /// A coin of the listing was clicked: its stale details and chart are
    /// dropped, it becomes the chosen coin and the detail screen is shown.
    /// Returns the id whose details and chart are to be requested.
    pub fn coin_clicked(&mut self, id: String) -> (fetch: String)
        ensures
            old(self).wf() ==> final(self).wf(),
            fetch@ == id@,
            *final(self) == (CryptoApp {
                coin_details: None,
                chart_data: None,
                selected_coin_id: Some(id),
                current_screen: AppScreen::CoinDetails,
                ..*old(self)
            }),
    {
        self.coin_details = None;
        self.chart_data = None;
        let fetch = id.clone();
        self.selected_coin_id = Some(id);
        self.current_screen = AppScreen::CoinDetails;
        fetch
    }

    /// A coin's star was clicked: the coin leaves the favourites if it is
    /// one, and joins them otherwise. Returns the favourites to store.
    pub fn favorite_clicked(&mut self, id: String) -> (to_store: FavoritesData)
        ensures
            old(self).wf() ==> final(self).wf(),
            final(self).favorite_coins@ == toggled(old(self).favorite_coins@, id@),
            final(self).favorite_coins@.contains(id@) == !old(self).favorite_coins@.contains(id@),
            forall|other: Seq<char>|
                other != id@ ==> #[trigger] final(self).favorite_coins@.contains(other) == old(
                    self,
                ).favorite_coins@.contains(other),
            *final(self) == (CryptoApp { favorite_coins: final(self).favorite_coins, ..*old(self) }),
            views_of(to_store.favorites@) == final(self).favorite_coins.order(),
            views_of(to_store.favorites@).to_set() == final(self).favorite_coins@,
            views_of(to_store.favorites@).no_duplicates(),
    {
        if self.favorite_coins.contains(&id) {
            self.favorite_coins.remove(&id);
        } else {
            self.favorite_coins.insert(id);
        }
        favorites_to_data(&self.favorite_coins)
    }

    /// Storing the favourites failed: the failure is shown, timed from `now_ms`.
    pub fn save_failed(&mut self, message: String, now_ms: i64)
        ensures
            old(self).wf() ==> final(self).wf(),
            *final(self) == (CryptoApp { error_message: Some(message), error_time_ms: Some(now_ms), ..*old(self) }),
    {
        self.error_message = Some(message);
        self.error_time_ms = Some(now_ms);
    }

    /// The detail screen's back button was pressed.
    pub fn back_clicked(&mut self)
        ensures
            old(self).wf() ==> final(self).wf(),
            *final(self) == (CryptoApp { current_screen: AppScreen::Dashboard, ..*old(self) }),
    {
        self.current_screen = AppScreen::Dashboard;
    }

    /// The positions of the coins that the listing shows, in display order,
    /// under the current query, filter, favourites and order.
    pub fn get_filtered_coins(&self) -> (shown: Vec<usize>)
        ensures
            crate::filter::filtered_listing(
                self.coins@,
                self.search_query@,
                self.show_filter,
                self.favorite_coins@,
                self.sort_by,
                self.sort_order,
                shown@,
            ),
    {
        get_filtered_coins(
            self.coins.as_slice(),
            self.search_query.as_str(),
            &self.show_filter,
            &self.favorite_coins,
            &self.sort_by,
            &self.sort_order,
        )
    }

    /// The coin that the detail screen is about: the first coin of the
    /// listing whose id is the chosen one.
    pub fn selected_coin(&self) -> (found: SelectedCoin)
        ensures
            match self.selected_coin_id {
                None => found is NoneSelected,
                Some(id) => match found {
                    SelectedCoin::NoneSelected => false,
                    SelectedCoin::NotFound => forall|i: int|
                        0 <= i < self.coins@.len() ==> #[trigger] self.coins@[i].id@ != id@,
                    SelectedCoin::Found(k) => {
                        &&& k < self.coins@.len()
                        &&& self.coins@[k as int].id@ == id@
                        &&& forall|i: int| 0 <= i < k ==> #[trigger] self.coins@[i].id@ != id@
                    },
                },
            },
    {
        match &self.selected_coin_id {
            None => SelectedCoin::NoneSelected,
            Some(id) => {
                let mut i: usize = 0;
                while i < self.coins.len()
                    invariant
                        self.selected_coin_id == Some(*id),
                        i <= self.coins@.len(),
                        forall|j: int| 0 <= j < i ==> #[trigger] self.coins@[j].id@ != id@,
                    decreases self.coins@.len() - i,
                {
                    if self.coins[i].id == *id {
                        return SelectedCoin::Found(i);
                    }
                    i = i + 1;
                }
                SelectedCoin::NotFound
            },
        }
    }
}

/// Clicking a coin's star twice leaves the favourites as they were.
pub proof fn favorite_toggle_twice_restores(favorites: Set<Seq<char>>, id: Seq<char>)
    ensures
        toggled(toggled(favorites, id), id) == favorites,
{
    if favorites.contains(id) {
        assert(favorites.remove(id).insert(id) =~= favorites);
    } else {
        assert(favorites.insert(id).remove(id) =~= favorites);
    }
}

/// While a listing request is in flight no automatic refresh is due, so at
/// most one listing request is outstanding at a time.
pub proof fn no_refresh_while_in_flight<Ch>(app: CryptoApp<Ch>, now_mono_ms: u64)
    requires
        app.is_refreshing,
    ensures
        !app.auto_refresh_due(now_mono_ms),
{
}

/// Over any run of the steps above, starting from `CryptoApp::new`, at most one
/// listing request is in flight, and one exactly while a refresh is running.
pub proof fn at_most_one_listing_request_in_flight<Ch>(app: CryptoApp<Ch>)
    requires
        app.wf(),
    ensures
        app.listing_requests_in_flight@ <= 1,
        app.listing_requests_in_flight@ == 1 <==> app.is_refreshing,
{
}

/// Every error on screen is temporary: it carries the time at which it was
/// shown, so `expire_error` clears it once `ERROR_DISPLAY_MS` have passed.
pub proof fn shown_errors_are_temporary<Ch>(app: CryptoApp<Ch>)
    requires
        app.wf(),
        app.error_message is Some,
    ensures
        app.error_time_ms is Some,
{
}

/// A star click changes the favourite status of the clicked coin and of no
/// other: the clicked id becomes a favourite when it was not one and stops
/// being one when it was, for every id.
pub proof fn star_click_flips_only_that_coin(favorites: Set<Seq<char>>, id: Seq<char>)
    ensures
        toggled(favorites, id).contains(id) == !favorites.contains(id),
        forall|other: Seq<char>| other != id ==> #[trigger] toggled(favorites, id).contains(other) == favorites.contains(other),
{
}

/// An automatic refresh is due exactly when it is switched on, none is in
/// flight, and the monotonic clock has advanced by at least
/// `refresh_interval` seconds since the last refresh started (any time at
/// all when the interval is zero).
pub proof fn auto_refresh_waits_for_interval<Ch>(app: CryptoApp<Ch>, now_mono_ms: u64)
    ensures
        app.auto_refresh_due(now_mono_ms) <==> {
            &&& app.settings.auto_refresh
            &&& !app.is_refreshing
            &&& (app.settings.refresh_interval == 0 || (now_mono_ms >= app.last_refresh_ms && now_mono_ms
                - app.last_refresh_ms >= 1000 * app.settings.refresh_interval))
        },
{
    let elapsed: int = if now_mono_ms >= app.last_refresh_ms { (now_mono_ms - app.last_refresh_ms) as int } else { 0 };
    let interval: int = app.settings.refresh_interval as int;
    assert(elapsed / 1000 >= interval <==> elapsed >= 1000 * interval) by (nonlinear_arith)
        requires
            elapsed >= 0,
            interval >= 0,
    ;
}

} // verus!

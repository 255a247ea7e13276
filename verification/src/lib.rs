//! Verified core of a desktop cryptocurrency market tracker: coin search,
//! filtering and sorting, favourites, request construction and the
//! decisions of the application's event loop.

pub mod client;
pub mod dashboard;
pub mod details;
pub mod filter;
pub mod format;
pub mod models;
pub mod storage;
pub mod text;
pub mod ui;

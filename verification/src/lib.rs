//! Watchlist crawling core: fetch a quote page, extract the current price
//! from its markup, and evaluate per-instrument threshold alerts against it.

pub mod crawl;
pub mod entity;
pub mod request;
pub mod router;
pub mod scraping;

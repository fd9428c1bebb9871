//! Verified core of a collector for public articles of the tgb.cn forum:
//! text normalisation, date resolution, page scraping rules, the merge rule of
//! the article store, run bookkeeping and export rendering.

pub mod cli;
pub mod client;
pub mod crawl;
pub mod datetime;
pub mod export;
pub mod html;
pub mod listing;
pub mod model;
pub mod numbers;
pub mod parser;
pub mod store;
pub mod text;

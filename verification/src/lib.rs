//! Market-data helpers for crypto ticker feeds and event streams: trading-pair
//! symbol handling, exact decimal price normalisation, per-exchange price
//! extraction and change detection, and keyword filtering of text events.

pub mod binance;
pub mod ct_log;
pub mod decimal;
pub mod feed;
pub mod gzip;
pub mod huobi;
pub mod json;
pub mod jupiter;
pub mod market;
pub mod text;
pub mod wikimedia;

pub mod binance;
pub mod coinbase;
pub mod feed_error;
pub mod kraken;
pub mod rate_limit;
pub mod sequence;
pub mod supervisor;
pub mod ticker;

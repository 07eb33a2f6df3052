//! Normalized market-data records shared by every venue.
use vstd::prelude::*;

verus! {

/// A price in integer cent ticks (`81633.47` is `8163347`).
pub type Price = i64;

/// A quantity in units of 10^-8 of the base asset (`1.25` is `125_000_000`).
pub type Quantity = i64;

/// A venue sequence number.
pub type Sequence = u64;

/// Number of decimal places that a [`Price`] keeps.
pub const PRICE_DECIMALS: u32 = 2;

/// Number of decimal places that a [`Quantity`] keeps.
pub const QTY_DECIMALS: u32 = 8;

/// The best bid and best ask of one market on one venue.
#[derive(Debug, Clone)]
pub struct TopOfBook {
    pub venue: String,
    pub symbol: String,
    pub venue_symbol: String,
    pub bid_price: Price,
    pub bid_qty: Quantity,
    pub ask_price: Price,
    pub ask_qty: Quantity,
    pub sequence: Sequence,
    pub receive_ts_us: i64,
    pub last_update_latency_us: i64,
}

/// One price level of a depth book.
#[derive(Debug, Clone, Copy)]
pub struct PriceLevel {
    pub price: Price,
    pub qty: Quantity,
}

/// An incremental depth update, normalized from a venue message.
#[derive(Debug, Clone)]
pub struct NormalizedDepthUpdate {
    pub venue: String,
    pub symbol: String,
    pub venue_symbol: String,
    pub first_update_id: Sequence,
    pub final_update_id: Sequence,
    pub bids: Vec<PriceLevel>,
    pub asks: Vec<PriceLevel>,
    pub receive_ts_us: i64,
}

/// A full depth snapshot, normalized from a venue response.
#[derive(Debug, Clone)]
pub struct DepthSnapshot {
    pub venue: String,
    pub symbol: String,
    pub venue_symbol: String,
    pub last_update_id: Sequence,
    pub bids: Vec<PriceLevel>,
    pub asks: Vec<PriceLevel>,
    pub receive_ts_us: i64,
}

/// A top-of-book update, normalized from a ticker message.
#[derive(Debug, Clone)]
pub struct NormalizedTopOfBookUpdate {
    pub venue: String,
    pub symbol: String,
    pub venue_symbol: String,
    pub bid_price: Price,
    pub bid_qty: Quantity,
    pub ask_price: Price,
    pub ask_qty: Quantity,
    pub sequence: Sequence,
    pub receive_ts_us: i64,
}

/// A Binance diff-depth stream event, as it stands in the message
/// (field names in the message: `e`, `E`, `s`, `U`, `u`, `b`, `a`).
#[derive(Debug, Clone)]
pub struct BinanceDepthUpdate {
    pub event_type: String,
    pub event_time_ms: u64,
    pub symbol: String,
    pub first_update_id: Sequence,
    pub final_update_id: Sequence,
    pub bids: Vec<[String; 2]>,
    pub asks: Vec<[String; 2]>,
}

/// A Binance REST depth snapshot, as it stands in the response
/// (field names in the response: `lastUpdateId`, `bids`, `asks`).
#[derive(Debug, Clone)]
pub struct BinanceDepthSnapshot {
    pub last_update_id: Sequence,
    pub bids: Vec<[String; 2]>,
    pub asks: Vec<[String; 2]>,
}

/// Copies a top-of-book record field by field.
pub fn copy_book(b: &TopOfBook) -> (r: TopOfBook)
    ensures
        r == *b,
{
    TopOfBook {
        venue: b.venue.clone(),
        symbol: b.symbol.clone(),
        venue_symbol: b.venue_symbol.clone(),
        bid_price: b.bid_price,
        bid_qty: b.bid_qty,
        ask_price: b.ask_price,
        ask_qty: b.ask_qty,
        sequence: b.sequence,
        receive_ts_us: b.receive_ts_us,
        last_update_latency_us: b.last_update_latency_us,
    }
}

} // verus!

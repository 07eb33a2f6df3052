//! The fields that a top-of-book ticker message carries, and the
//! normalized update built from them.
use crate::types::{NormalizedTopOfBookUpdate, Price, Quantity, Sequence};
use crate::venue::feed_error::{FeedParseError, ParseFailure};
use vstd::prelude::*;

verus! {

/// The prices, quantities and sequence number read from a ticker message.
pub struct TickerFields {
    pub bid_price: Price,
    pub bid_qty: Quantity,
    pub ask_price: Price,
    pub ask_qty: Quantity,
    pub sequence: Sequence,
}

/// `u` is the normalized update for `fields`, tagged with the given venue,
/// symbols and receive time.
pub open spec fn is_update_for(
    u: NormalizedTopOfBookUpdate,
    venue: Seq<char>,
    symbol: Seq<char>,
    venue_symbol: Seq<char>,
    fields: TickerFields,
    receive_ts_us: i64,
) -> bool {
    &&& u.venue@ == venue
    &&& u.symbol@ == symbol
    &&& u.venue_symbol@ == venue_symbol
    &&& u.bid_price == fields.bid_price
    &&& u.bid_qty == fields.bid_qty
    &&& u.ask_price == fields.ask_price
    &&& u.ask_qty == fields.ask_qty
    &&& u.sequence == fields.sequence
    &&& u.receive_ts_us == receive_ts_us
}

/// The result of reading a ticker message agrees with what the message
/// holds: the same error, no update, or the update for the same fields.
pub open spec fn ticker_result_is(
    r: Result<Option<NormalizedTopOfBookUpdate>, FeedParseError>,
    expected: Result<Option<TickerFields>, ParseFailure>,
    venue: Seq<char>,
    symbol: Seq<char>,
    venue_symbol: Seq<char>,
    receive_ts_us: i64,
) -> bool {
    match (r, expected) {
        (Ok(None), Ok(None)) => true,
        (Ok(Some(u)), Ok(Some(f))) => is_update_for(u, venue, symbol, venue_symbol, f, receive_ts_us),
        (Err(e), Err(f)) => e@ == f,
        _ => false,
    }
}

/// Builds the normalized update for ticker fields.
pub fn ticker_update(
    venue: &str,
    symbol: &str,
    venue_symbol: &str,
    bid_price: Price,
    bid_qty: Quantity,
    ask_price: Price,
    ask_qty: Quantity,
    sequence: Sequence,
    receive_ts_us: i64,
) -> (u: NormalizedTopOfBookUpdate)
    ensures
        is_update_for(
            u,
            venue@,
            symbol@,
            venue_symbol@,
            TickerFields { bid_price, bid_qty, ask_price, ask_qty, sequence },
            receive_ts_us,
        ),
{
    NormalizedTopOfBookUpdate {
        venue: String::from_str(venue),
        symbol: String::from_str(symbol),
        venue_symbol: String::from_str(venue_symbol),
        bid_price,
        bid_qty,
        ask_price,
        ask_qty,
        sequence,
        receive_ts_us,
    }
}

} // verus!

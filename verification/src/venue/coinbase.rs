//! Coinbase: the ticker channel's top-of-book messages.
use crate::decimal::{chars_of, parse_u64_literal, u64_literal};
use crate::json::{
    json_document, json_get, json_quote, json_str, json_string_literal, json_u64, parse_json,
    JsonValue,
};
use crate::metrics::latency::now_us;
use crate::types::{NormalizedTopOfBookUpdate, Price, Quantity, Sequence};
use crate::venue::binance::{price_ticks, price_to_ticks, qty_to_units, qty_units};
use crate::venue::feed_error::{FeedParseError, ParseFailure};
use crate::venue::ticker::{ticker_result_is, ticker_update, TickerFields};
use vstd::prelude::*;

verus! {

/// The subscription request for a product's ticker channel:
/// `{"channels":["ticker"],"product_ids":[<id>],"type":"subscribe"}`.
pub open spec fn subscribe_text(product_id: Seq<char>) -> Seq<char> {
    "{\"channels\":[\"ticker\"],\"product_ids\":["@ + json_string_literal(product_id)
        + "],\"type\":\"subscribe\"}"@
}

/// Builds the subscription request for a product (see [`subscribe_text`]).
pub fn subscribe_message(product_id: &str) -> (r: String)
    ensures
        r@ == subscribe_text(product_id@),
{
    let mut out = String::from_str("{\"channels\":[\"ticker\"],\"product_ids\":[");
    let quoted = json_quote(product_id);
    out.append(quoted.as_str());
    out.append("],\"type\":\"subscribe\"}");
    out
}

/// A required price member: a string holding a decimal literal.
pub open spec fn coinbase_price(doc: JsonValue, key: Seq<char>) -> Result<Price, ParseFailure> {
    match json_str(json_get(doc, key)) {
        None => Err(ParseFailure::MissingField(key)),
        Some(t) => match price_ticks(t) {
            Some(p) => Ok(p),
            None => Err(ParseFailure::InvalidNumber(t)),
        },
    }
}

/// An optional quantity member: a string holding a decimal literal; zero
/// when absent or unreadable.
pub open spec fn coinbase_qty(doc: JsonValue, key: Seq<char>) -> Quantity {
    match json_str(json_get(doc, key)) {
        Some(t) => match qty_units(t) {
            Some(q) => q,
            None => 0,
        },
        None => 0,
    }
}

/// The `sequence` member: a string holding an integer, or an integer.
pub open spec fn coinbase_sequence(doc: JsonValue) -> Option<Sequence> {
    match json_get(doc, "sequence"@) {
        Some(JsonValue::String(t)) => u64_literal(t@),
        other => json_u64(other),
    }
}

/// What a Coinbase message holds for a product: nothing unless it is a
/// `ticker` message for that product; otherwise the best bid and ask prices
/// (required, bid first), their sizes (zero when absent or unreadable), and
/// the sequence number (`fallback_sequence` when absent or unreadable).
pub open spec fn coinbase_ticker(doc: JsonValue, venue_symbol: Seq<char>, fallback_sequence: Sequence) -> Result<
    Option<TickerFields>,
    ParseFailure,
> {
    if json_str(json_get(doc, "type"@)) != Some("ticker"@) {
        Ok(None)
    } else if (match json_str(json_get(doc, "product_id"@)) {
        Some(t) => t,
        None => Seq::empty(),
    }) != venue_symbol {
        Ok(None)
    } else {
        match coinbase_price(doc, "best_bid"@) {
            Err(x) => Err(x),
            Ok(bid) => match coinbase_price(doc, "best_ask"@) {
                Err(x) => Err(x),
                Ok(ask) => Ok(
                    Some(
                        TickerFields {
                            bid_price: bid,
                            bid_qty: coinbase_qty(doc, "best_bid_size"@),
                            ask_price: ask,
                            ask_qty: coinbase_qty(doc, "best_ask_size"@),
                            sequence: match coinbase_sequence(doc) {
                                Some(n) => n,
                                None => fallback_sequence,
                            },
                        },
                    ),
                ),
            },
        }
    }
}

/// Reads a required price member.
fn required_price(doc: &JsonValue, key: &str) -> (r: Result<Price, FeedParseError>)
    ensures
        match r {
            Ok(p) => coinbase_price(*doc, key@) == Ok::<Price, ParseFailure>(p),
            Err(e) => coinbase_price(*doc, key@) == Err::<Price, ParseFailure>(e@),
        },
{
    match doc.get(key) {
        Some(v) => match v.as_str() {
            Some(t) => price_to_ticks(t.as_str()),
            None => Err(FeedParseError::MissingField(String::from_str(key))),
        },
        None => Err(FeedParseError::MissingField(String::from_str(key))),
    }
}

/// Reads an optional quantity member; zero when absent or unreadable.
fn optional_qty(doc: &JsonValue, key: &str) -> (r: Quantity)
    ensures
        r == coinbase_qty(*doc, key@),
{
    match doc.get(key) {
        Some(v) => match v.as_str() {
            Some(t) => match qty_to_units(t.as_str()) {
                Ok(q) => q,
                Err(_) => 0,
            },
            None => 0,
        },
        None => 0,
    }
}

/// Reads the `sequence` member.
fn sequence_of(doc: &JsonValue) -> (r: Option<Sequence>)
    ensures
        r == coinbase_sequence(*doc),
{
    match doc.get("sequence") {
        Some(v) => match v {
            JsonValue::String(t) => {
                let cs = chars_of(t.as_str());
                parse_u64_literal(&cs)
            },
            _ => v.as_u64(),
        },
        None => None,
    }
}

/// Whether the member `key` is the string `expected`.
fn member_is(doc: &JsonValue, key: &str, expected: &str) -> (r: bool)
    ensures
        r == (json_str(json_get(*doc, key@)) == Some(expected@)),
{
    match doc.get(key) {
        Some(v) => match v.as_str() {
            Some(t) => {
                let e = String::from_str(expected);
                *t == e
            },
            None => false,
        },
        None => false,
    }
}

/// Whether the member `key` (the empty text when it is not a string)
/// equals `expected`.
fn member_or_empty_is(doc: &JsonValue, key: &str, expected: &str) -> (r: bool)
    ensures
        r == ((match json_str(json_get(*doc, key@)) {
            Some(t) => t,
            None => Seq::empty(),
        }) == expected@),
{
    let e = String::from_str(expected);
    match doc.get(key) {
        Some(v) => match v.as_str() {
            Some(t) => *t == e,
            None => String::new() == e,
        },
        None => String::new() == e,
    }
}

/// Reads the top of book from a Coinbase document (see [`coinbase_ticker`]).
pub fn ticker_from_json(
    venue: &str,
    symbol: &str,
    venue_symbol: &str,
    doc: &JsonValue,
    receive_ts_us: i64,
    fallback_sequence: Sequence,
) -> (r: Result<Option<NormalizedTopOfBookUpdate>, FeedParseError>)
    ensures
        ticker_result_is(
            r,
            coinbase_ticker(*doc, venue_symbol@, fallback_sequence),
            venue@,
            symbol@,
            venue_symbol@,
            receive_ts_us,
        ),
{
    proof {
        reveal_strlit("ticker");
    }
    if !member_is(doc, "type", "ticker") {
        return Ok(None);
    }
    if !member_or_empty_is(doc, "product_id", venue_symbol) {
        return Ok(None);
    }
    let bid_price = required_price(doc, "best_bid")?;
    let ask_price = required_price(doc, "best_ask")?;
    let bid_qty = optional_qty(doc, "best_bid_size");
    let ask_qty = optional_qty(doc, "best_ask_size");
    let sequence = match sequence_of(doc) {
        Some(n) => n,
        None => fallback_sequence,
    };
    Ok(
        Some(
            ticker_update(
                venue,
                symbol,
                venue_symbol,
                bid_price,
                bid_qty,
                ask_price,
                ask_qty,
                sequence,
                receive_ts_us,
            ),
        ),
    )
}

/// Reads a Coinbase ticker message from text. Text that serde_json does not
/// read is [`FeedParseError::InvalidJson`]; otherwise the result is that of
/// [`coinbase_ticker`] on the document, where a message without a readable
/// sequence number takes the current time in microseconds.
pub fn parse_ticker(
    venue: &str,
    symbol: &str,
    venue_symbol: &str,
    raw: &str,
    receive_ts_us: i64,
) -> (r: Result<Option<NormalizedTopOfBookUpdate>, FeedParseError>)
    ensures
        match json_document(raw@) {
            None => r is Err && r->Err_0@ == ParseFailure::InvalidJson,
            Some(doc) => exists|fallback: Sequence|
                ticker_result_is(
                    r,
                    #[trigger] coinbase_ticker(doc, venue_symbol@, fallback),
                    venue@,
                    symbol@,
                    venue_symbol@,
                    receive_ts_us,
                ),
        },
{
    let doc = match parse_json(raw) {
        Some(d) => d,
        None => {
            return Err(FeedParseError::InvalidJson);
        },
    };
    let now = now_us();
    let fallback = now as u64;
    ticker_from_json(venue, symbol, venue_symbol, &doc, receive_ts_us, fallback)
}

} // verus!

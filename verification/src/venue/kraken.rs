//! Kraken: the ticker channel's best-bid-offer messages.
use crate::json::{
    json_document, json_first, json_get, json_quote, json_str, json_string_literal, parse_json,
    JsonValue,
};
use crate::metrics::latency::now_us;
use crate::types::{NormalizedTopOfBookUpdate, Price, Quantity, Sequence};
use crate::venue::binance::{price_ticks, price_to_ticks, qty_to_units, qty_units};
use crate::venue::feed_error::{FeedParseError, ParseFailure};
use crate::venue::ticker::{ticker_result_is, ticker_update, TickerFields};
use vstd::prelude::*;

verus! {

/// The subscription request for a symbol's ticker channel, updated on
/// best-bid-offer changes and starting with a snapshot:
/// `{"method":"subscribe","params":{"channel":"ticker","event_trigger":"bbo",
/// "snapshot":true,"symbol":[<symbol>]}}`.
pub open spec fn subscribe_text(symbol: Seq<char>) -> Seq<char> {
    "{\"method\":\"subscribe\",\"params\":{\"channel\":\"ticker\",\"event_trigger\":\"bbo\",\"snapshot\":true,\"symbol\":["@
        + json_string_literal(symbol) + "]}}"@
}

/// Builds the subscription request for a symbol (see [`subscribe_text`]).
pub fn subscribe_message(symbol: &str) -> (r: String)
    ensures
        r@ == subscribe_text(symbol@),
{
    let mut out = String::from_str(
        "{\"method\":\"subscribe\",\"params\":{\"channel\":\"ticker\",\"event_trigger\":\"bbo\",\"snapshot\":true,\"symbol\":[",
    );
    let quoted = json_quote(symbol);
    out.append(quoted.as_str());
    out.append("]}}");
    out
}

/// A required price member: a string holding a decimal literal, or a JSON
/// number (read from the text serde_json prints for it). Any other value is
/// an invalid number.
pub open spec fn kraken_price(v: JsonValue, key: Seq<char>) -> Result<Price, ParseFailure> {
    match json_get(v, key) {
        None => Err(ParseFailure::MissingField(key)),
        Some(JsonValue::String(t)) => match price_ticks(t@) {
            Some(p) => Ok(p),
            None => Err(ParseFailure::InvalidNumber(t@)),
        },
        Some(JsonValue::Number(t)) => match price_ticks(t@) {
            Some(p) => Ok(p),
            None => Err(ParseFailure::InvalidNumber(t@)),
        },
        Some(_) => Err(ParseFailure::InvalidNumber(key)),
    }
}

/// An optional quantity member: a string holding a decimal literal or a
/// JSON number; zero when absent or unreadable.
pub open spec fn kraken_qty(v: JsonValue, key: Seq<char>) -> Quantity {
    match json_get(v, key) {
        Some(JsonValue::String(t)) => match qty_units(t@) {
            Some(q) => q,
            None => 0,
        },
        Some(JsonValue::Number(t)) => match qty_units(t@) {
            Some(q) => q,
            None => 0,
        },
        _ => 0,
    }
}

/// What a Kraken message holds for a symbol: nothing unless it is on the
/// `ticker` channel with a first `data` entry for that symbol; otherwise
/// that entry's `bid` and `ask` (required, bid first), `bid_qty` and
/// `ask_qty` (zero when absent or unreadable), and the given sequence.
pub open spec fn kraken_ticker(doc: JsonValue, venue_symbol: Seq<char>, sequence: Sequence) -> Result<
    Option<TickerFields>,
    ParseFailure,
> {
    if json_str(json_get(doc, "channel"@)) != Some("ticker"@) {
        Ok(None)
    } else {
        match json_first(json_get(doc, "data"@)) {
            None => Ok(None),
            Some(first) => if (match json_str(json_get(first, "symbol"@)) {
                Some(t) => t,
                None => Seq::empty(),
            }) != venue_symbol {
                Ok(None)
            } else {
                match kraken_price(first, "bid"@) {
                    Err(x) => Err(x),
                    Ok(bid) => match kraken_price(first, "ask"@) {
                        Err(x) => Err(x),
                        Ok(ask) => Ok(
                            Some(
                                TickerFields {
                                    bid_price: bid,
                                    bid_qty: kraken_qty(first, "bid_qty"@),
                                    ask_price: ask,
                                    ask_qty: kraken_qty(first, "ask_qty"@),
                                    sequence,
                                },
                            ),
                        ),
                    },
                }
            },
        }
    }
}

/// Reads a required price member.
fn required_price(v: &JsonValue, key: &str) -> (r: Result<Price, FeedParseError>)
    ensures
        match r {
            Ok(p) => kraken_price(*v, key@) == Ok::<Price, ParseFailure>(p),
            Err(e) => kraken_price(*v, key@) == Err::<Price, ParseFailure>(e@),
        },
{
    match v.get(key) {
        None => Err(FeedParseError::MissingField(String::from_str(key))),
        Some(x) => match x {
            JsonValue::String(t) => price_to_ticks(t.as_str()),
            JsonValue::Number(t) => price_to_ticks(t.as_str()),
            _ => Err(FeedParseError::InvalidNumber(String::from_str(key))),
        },
    }
}

/// Reads an optional quantity member; zero when absent or unreadable.
fn optional_qty(v: &JsonValue, key: &str) -> (r: Quantity)
    ensures
        r == kraken_qty(*v, key@),
{
    match v.get(key) {
        Some(x) => match x {
            JsonValue::String(t) => match qty_to_units(t.as_str()) {
                Ok(q) => q,
                Err(_) => 0,
            },
            JsonValue::Number(t) => match qty_to_units(t.as_str()) {
                Ok(q) => q,
                Err(_) => 0,
            },
            _ => 0,
        },
        None => 0,
    }
}

/// Whether the member `key` is the string `expected`.
fn member_is(doc: &JsonValue, key: &str, expected: &str) -> (r: bool)
    ensures
        r == (json_str(json_get(*doc, key@)) == Some(expected@)),
{
    match doc.get(key) {
        Some(v) => match v.as_str() {
            Some(t) => {
                let e = String::from_str(expected);
                *t == e
            },
            None => false,
        },
        None => false,
    }
}

/// The first element of the array member `key`.
fn first_of_member<'a>(doc: &'a JsonValue, key: &str) -> (r: Option<&'a JsonValue>)
    ensures
        match r {
            Some(x) => json_first(json_get(*doc, key@)) == Some(*x),
            None => json_first(json_get(*doc, key@)) is None,
        },
{
    match doc.get(key) {
        Some(v) => match v.as_array() {
            Some(items) => if items.len() > 0 {
                Some(&items[0])
            } else {
                None
            },
            None => None,
        },
        None => None,
    }
}

/// Reads the top of book from a Kraken document (see [`kraken_ticker`]).
pub fn ticker_from_json(
    venue: &str,
    symbol: &str,
    venue_symbol: &str,
    doc: &JsonValue,
    receive_ts_us: i64,
    sequence: Sequence,
) -> (r: Result<Option<NormalizedTopOfBookUpdate>, FeedParseError>)
    ensures
        ticker_result_is(
            r,
            kraken_ticker(*doc, venue_symbol@, sequence),
            venue@,
            symbol@,
            venue_symbol@,
            receive_ts_us,
        ),
{
    proof {
        reveal_strlit("ticker");
    }
    if !member_is(doc, "channel", "ticker") {
        return Ok(None);
    }
    let first = match first_of_member(doc, "data") {
        Some(f) => f,
        None => {
            return Ok(None);
        },
    };
    let expected = String::from_str(venue_symbol);
    let matches = match first.get("symbol") {
        Some(v) => match v.as_str() {
            Some(t) => *t == expected,
            None => String::new() == expected,
        },
        None => String::new() == expected,
    };
    if !matches {
        return Ok(None);
    }
    let bid_price = required_price(first, "bid")?;
    let ask_price = required_price(first, "ask")?;
    let bid_qty = optional_qty(first, "bid_qty");
    let ask_qty = optional_qty(first, "ask_qty");
    Ok(
        Some(
            ticker_update(
                venue,
                symbol,
                venue_symbol,
                bid_price,
                bid_qty,
                ask_price,
                ask_qty,
                sequence,
                receive_ts_us,
            ),
        ),
    )
}

/// Reads a Kraken ticker message from text. Text that serde_json does not
/// read is [`FeedParseError::InvalidJson`]; otherwise the result is that of
/// [`kraken_ticker`] on the document, with the current time in microseconds
/// as the sequence number.
pub fn parse_ticker(
    venue: &str,
    symbol: &str,
    venue_symbol: &str,
    raw: &str,
    receive_ts_us: i64,
) -> (r: Result<Option<NormalizedTopOfBookUpdate>, FeedParseError>)
    ensures
        match json_document(raw@) {
            None => r is Err && r->Err_0@ == ParseFailure::InvalidJson,
            Some(doc) => exists|sequence: Sequence|
                ticker_result_is(
                    r,
                    #[trigger] kraken_ticker(doc, venue_symbol@, sequence),
                    venue@,
                    symbol@,
                    venue_symbol@,
                    receive_ts_us,
                ),
        },
{
    let doc = match parse_json(raw) {
        Some(d) => d,
        None => {
            return Err(FeedParseError::InvalidJson);
        },
    };
    let now = now_us();
    let sequence = now as u64;
    ticker_from_json(venue, symbol, venue_symbol, &doc, receive_ts_us, sequence)
}

} // verus!

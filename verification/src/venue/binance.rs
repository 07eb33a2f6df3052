//! Binance: diff-depth stream events and REST depth snapshots.
use crate::decimal::{chars_of, float_scaled, parse_scaled_float};
use crate::json::{json_get, json_str, json_u64, parse_json, json_document, JsonValue};
use crate::types::{
    BinanceDepthSnapshot, BinanceDepthUpdate, DepthSnapshot, NormalizedDepthUpdate, Price,
    PriceLevel, Quantity, PRICE_DECIMALS, QTY_DECIMALS,
};
use crate::venue::feed_error::{FeedParseError, ParseFailure};
use vstd::prelude::*;

verus! {

/// A price text in cent ticks, read as a float would be (see
/// [`float_scaled`]).
pub open spec fn price_ticks(t: Seq<char>) -> Option<Price> {
    float_scaled(t, PRICE_DECIMALS as nat)
}

/// A quantity text in units of 10^-8, read as a float would be (see
/// [`float_scaled`]).
pub open spec fn qty_units(t: Seq<char>) -> Option<Quantity> {
    float_scaled(t, QTY_DECIMALS as nat)
}

/// Converts a price to integer cent ticks, rounding to the nearest tick
/// with halves away from zero (`"81633.47"` is `8163347`); values beyond
/// the range of `i64` saturate, infinities saturate by sign and `nan` is
/// zero. Text that a float parser rejects is an
/// [`FeedParseError::InvalidNumber`] holding the text.
pub fn price_to_ticks(raw: &str) -> (r: Result<Price, FeedParseError>)
    ensures
        match r {
            Ok(p) => price_ticks(raw@) == Some(p),
            Err(e) => price_ticks(raw@) is None && e@ == ParseFailure::InvalidNumber(raw@),
        },
{
    let cs = chars_of(raw);
    match parse_scaled_float(&cs, PRICE_DECIMALS) {
        Some(p) => Ok(p),
        None => Err(FeedParseError::InvalidNumber(String::from_str(raw))),
    }
}

/// Converts a quantity to units of 10^-8, rounding to the nearest unit with
/// halves away from zero (`"1.25"` is `125_000_000`); out-of-range and
/// non-finite texts are read as for [`price_to_ticks`].
pub fn qty_to_units(raw: &str) -> (r: Result<Quantity, FeedParseError>)
    ensures
        match r {
            Ok(q) => qty_units(raw@) == Some(q),
            Err(e) => qty_units(raw@) is None && e@ == ParseFailure::InvalidNumber(raw@),
        },
{
    let cs = chars_of(raw);
    match parse_scaled_float(&cs, QTY_DECIMALS) {
        Some(q) => Ok(q),
        None => Err(FeedParseError::InvalidNumber(String::from_str(raw))),
    }
}

/// The level read from a `[price, quantity]` text pair: the price first,
/// then the quantity; the first text that is not a valid literal is the
/// error.
pub open spec fn level_from_text(pair: (Seq<char>, Seq<char>)) -> Result<PriceLevel, ParseFailure> {
    match (price_ticks(pair.0), qty_units(pair.1)) {
        (Some(p), Some(q)) => Ok(PriceLevel { price: p, qty: q }),
        (None, _) => Err(ParseFailure::InvalidNumber(pair.0)),
        (Some(_), None) => Err(ParseFailure::InvalidNumber(pair.1)),
    }
}

/// The levels read from text pairs, in order; the first bad pair is the
/// error.
pub open spec fn levels_from_text(pairs: Seq<(Seq<char>, Seq<char>)>) -> Result<
    Seq<PriceLevel>,
    ParseFailure,
>
    decreases pairs.len(),
{
    if pairs.len() == 0 {
        Ok(Seq::empty())
    } else {
        match level_from_text(pairs[0]) {
            Err(e) => Err(e),
            Ok(l) => match levels_from_text(pairs.drop_first()) {
                Err(e) => Err(e),
                Ok(rest) => Ok(seq![l] + rest),
            },
        }
    }
}

/// The text pairs of a list of `[price, quantity]` arrays.
pub open spec fn pairs_view(v: Seq<[String; 2]>) -> Seq<(Seq<char>, Seq<char>)> {
    Seq::new(v.len(), |i: int| (v[i]@[0]@, v[i]@[1]@))
}

/// Reads `[price, quantity]` text pairs into price levels.
pub fn parse_levels(raw_levels: &Vec<[String; 2]>) -> (r: Result<Vec<PriceLevel>, FeedParseError>)
    ensures
        match r {
            Ok(v) => levels_from_text(pairs_view(raw_levels@)) == Ok::<
                Seq<PriceLevel>,
                ParseFailure,
            >(v@),
            Err(e) => levels_from_text(pairs_view(raw_levels@)) == Err::<
                Seq<PriceLevel>,
                ParseFailure,
            >(e@),
        },
{
    let ghost pairs = pairs_view(raw_levels@);
    let mut out: Vec<PriceLevel> = Vec::new();
    let mut i: usize = 0;
    proof {
        assert(pairs.skip(0) =~= pairs);
        assert(Seq::<PriceLevel>::empty() + Seq::<PriceLevel>::empty() =~= Seq::<PriceLevel>::empty());
    }
    while i < raw_levels.len()
        invariant
            i <= raw_levels.len(),
            pairs == pairs_view(raw_levels@),
            levels_from_text(pairs) == match levels_from_text(pairs.skip(i as int)) {
                Err(e) => Err(e),
                Ok(rest) => Ok::<Seq<PriceLevel>, ParseFailure>(out@ + rest),
            },
        decreases raw_levels.len() - i,
    {
        let pair = &raw_levels[i];
        let price = price_to_ticks(pair[0].as_str());
        let qty = qty_to_units(pair[1].as_str());
        proof {
            let t = pairs.skip(i as int);
            assert(t[0] == pairs[i as int]);
            assert(t.drop_first() =~= pairs.skip(i + 1));
            assert(pairs[i as int] == (pair@[0]@, pair@[1]@));
        }
        match price {
            Err(e) => {
                return Err(e);
            },
            Ok(p) => match qty {
                Err(e) => {
                    return Err(e);
                },
                Ok(q) => {
                    let ghost before = out@;
                    out.push(PriceLevel { price: p, qty: q });
                    proof {
                        let lv = PriceLevel { price: p, qty: q };
                        assert forall|rest: Seq<PriceLevel>| before + (seq![lv] + rest) =~= out@
                            + rest by {}
                    }
                },
            },
        }
        i = i + 1;
    }
    proof {
        assert(pairs.skip(i as int) =~= Seq::<(Seq<char>, Seq<char>)>::empty());
        assert(out@ + Seq::<PriceLevel>::empty() =~= out@);
    }
    Ok(out)
}


/// A required string member.
pub open spec fn required_str(doc: JsonValue, key: Seq<char>) -> Result<Seq<char>, ParseFailure> {
    match json_str(json_get(doc, key)) {
        Some(t) => Ok(t),
        None => Err(ParseFailure::MissingField(key)),
    }
}

/// A required member holding a non-negative integer within `u64`.
pub open spec fn required_u64(doc: JsonValue, key: Seq<char>) -> Result<u64, ParseFailure> {
    match json_u64(json_get(doc, key)) {
        Some(n) => Ok(n),
        None => Err(ParseFailure::MissingField(key)),
    }
}

/// `v` is a JSON array of exactly two strings.
pub open spec fn is_string_pair(v: JsonValue) -> bool {
    match v {
        JsonValue::Array(p) => p@.len() == 2 && p@[0] is String && p@[1] is String,
        _ => false,
    }
}

/// The two strings of a string pair.
pub open spec fn string_pair(v: JsonValue) -> (Seq<char>, Seq<char>) {
    match v {
        JsonValue::Array(p) => (json_str(Some(p@[0])).unwrap(), json_str(Some(p@[1])).unwrap()),
        _ => (Seq::empty(), Seq::empty()),
    }
}

/// A required member holding an array of `[string, string]` arrays.
pub open spec fn required_pairs(doc: JsonValue, key: Seq<char>) -> Result<
    Seq<(Seq<char>, Seq<char>)>,
    ParseFailure,
> {
    match json_get(doc, key) {
        Some(JsonValue::Array(items)) => if forall|i: int|
            0 <= i < items@.len() ==> is_string_pair(#[trigger] items@[i]) {
            Ok(Seq::new(items@.len(), |i: int| string_pair(items@[i])))
        } else {
            Err(ParseFailure::MissingField(key))
        },
        _ => Err(ParseFailure::MissingField(key)),
    }
}

/// The members of a Binance depth event, as read from its message.
pub struct DepthUpdateModel {
    pub event_type: Seq<char>,
    pub event_time_ms: u64,
    pub symbol: Seq<char>,
    pub first_update_id: u64,
    pub final_update_id: u64,
    pub bids: Seq<(Seq<char>, Seq<char>)>,
    pub asks: Seq<(Seq<char>, Seq<char>)>,
}

impl View for BinanceDepthUpdate {
    type V = DepthUpdateModel;

    open spec fn view(&self) -> DepthUpdateModel {
        DepthUpdateModel {
            event_type: self.event_type@,
            event_time_ms: self.event_time_ms,
            symbol: self.symbol@,
            first_update_id: self.first_update_id,
            final_update_id: self.final_update_id,
            bids: pairs_view(self.bids@),
            asks: pairs_view(self.asks@),
        }
    }
}

/// A Binance depth event read from a JSON document: members `e` (string),
/// `E` (integer), `s` (string), `U` and `u` (integers), `b` and `a`
/// (arrays of `[price, quantity]` string pairs), other members ignored; the
/// first member that is absent or of another type, in that order, is the
/// error.
pub open spec fn depth_update_from_doc(doc: JsonValue) -> Result<DepthUpdateModel, ParseFailure> {
    match required_str(doc, "e"@) {
        Err(x) => Err(x),
        Ok(e) => match required_u64(doc, "E"@) {
            Err(x) => Err(x),
            Ok(et) => match required_str(doc, "s"@) {
                Err(x) => Err(x),
                Ok(sym) => match required_u64(doc, "U"@) {
                    Err(x) => Err(x),
                    Ok(first) => match required_u64(doc, "u"@) {
                        Err(x) => Err(x),
                        Ok(last) => match required_pairs(doc, "b"@) {
                            Err(x) => Err(x),
                            Ok(b) => match required_pairs(doc, "a"@) {
                                Err(x) => Err(x),
                                Ok(a) => Ok(
                                    DepthUpdateModel {
                                        event_type: e,
                                        event_time_ms: et,
                                        symbol: sym,
                                        first_update_id: first,
                                        final_update_id: last,
                                        bids: b,
                                        asks: a,
                                    },
                                ),
                            },
                        },
                    },
                },
            },
        },
    }
}

/// The members of a Binance depth snapshot, as read from its response.
pub struct DepthSnapshotModel {
    pub last_update_id: u64,
    pub bids: Seq<(Seq<char>, Seq<char>)>,
    pub asks: Seq<(Seq<char>, Seq<char>)>,
}

impl View for BinanceDepthSnapshot {
    type V = DepthSnapshotModel;

    open spec fn view(&self) -> DepthSnapshotModel {
        DepthSnapshotModel {
            last_update_id: self.last_update_id,
            bids: pairs_view(self.bids@),
            asks: pairs_view(self.asks@),
        }
    }
}

/// A Binance depth snapshot read from a JSON document: members
/// `lastUpdateId` (integer), `bids` and `asks` (arrays of string pairs).
pub open spec fn depth_snapshot_from_doc(doc: JsonValue) -> Result<DepthSnapshotModel, ParseFailure> {
    match required_u64(doc, "lastUpdateId"@) {
        Err(x) => Err(x),
        Ok(id) => match required_pairs(doc, "bids"@) {
            Err(x) => Err(x),
            Ok(b) => match required_pairs(doc, "asks"@) {
                Err(x) => Err(x),
                Ok(a) => Ok(DepthSnapshotModel { last_update_id: id, bids: b, asks: a }),
            },
        },
    }
}

/// Reads a required string member.
fn read_required_str(doc: &JsonValue, key: &str) -> (r: Result<String, FeedParseError>)
    ensures
        match r {
            Ok(t) => required_str(*doc, key@) == Ok::<Seq<char>, ParseFailure>(t@),
            Err(e) => required_str(*doc, key@) == Err::<Seq<char>, ParseFailure>(e@),
        },
{
    match doc.get(key) {
        Some(v) => match v.as_str() {
            Some(t) => Ok(t.clone()),
            None => Err(FeedParseError::MissingField(String::from_str(key))),
        },
        None => Err(FeedParseError::MissingField(String::from_str(key))),
    }
}

/// Reads a required `u64` member.
fn read_required_u64(doc: &JsonValue, key: &str) -> (r: Result<u64, FeedParseError>)
    ensures
        match r {
            Ok(n) => required_u64(*doc, key@) == Ok::<u64, ParseFailure>(n),
            Err(e) => required_u64(*doc, key@) == Err::<u64, ParseFailure>(e@),
        },
{
    match doc.get(key) {
        Some(v) => match v.as_u64() {
            Some(n) => Ok(n),
            None => Err(FeedParseError::MissingField(String::from_str(key))),
        },
        None => Err(FeedParseError::MissingField(String::from_str(key))),
    }
}

/// Reads a required member holding `[string, string]` arrays.
fn read_required_pairs(doc: &JsonValue, key: &str) -> (r: Result<Vec<[String; 2]>, FeedParseError>)
    ensures
        match r {
            Ok(v) => required_pairs(*doc, key@) == Ok::<Seq<(Seq<char>, Seq<char>)>, ParseFailure>(
                pairs_view(v@),
            ),
            Err(e) => required_pairs(*doc, key@) == Err::<
                Seq<(Seq<char>, Seq<char>)>,
                ParseFailure,
            >(e@),
        },
{
    let missing = FeedParseError::MissingField(String::from_str(key));
    let items = match doc.get(key) {
        Some(v) => match v.as_array() {
            Some(items) => items,
            None => {
                return Err(missing);
            },
        },
        None => {
            return Err(missing);
        },
    };
    let mut out: Vec<[String; 2]> = Vec::new();
    let mut i: usize = 0;
    while i < items.len()
        invariant
            i <= items.len(),
            json_get(*doc, key@) == Some(JsonValue::Array(*items)),
            missing@ == ParseFailure::MissingField(key@),
            out@.len() == i,
            forall|j: int| 0 <= j < i ==> is_string_pair(#[trigger] items@[j]),
            forall|j: int| 0 <= j < i ==> pairs_view(out@)[j] == string_pair(#[trigger] items@[j]),
        decreases items.len() - i,
    {
        let pair: [String; 2] = match &items[i] {
            JsonValue::Array(p) => {
                if p.len() != 2 {
                    return Err(missing);
                }
                let a = match &p[0] {
                    JsonValue::String(t) => t.clone(),
                    _ => {
                        return Err(missing);
                    },
                };
                let b = match &p[1] {
                    JsonValue::String(t) => t.clone(),
                    _ => {
                        return Err(missing);
                    },
                };
                [a, b]
            },
            _ => {
                return Err(missing);
            },
        };
        let ghost before = out@;
        out.push(pair);
        proof {
            assert forall|j: int| 0 <= j < i + 1 implies pairs_view(out@)[j] == string_pair(
                #[trigger] items@[j],
            ) by {
                if j < i {
                    assert(out@[j] == before[j]);
                    assert(pairs_view(before)[j] == string_pair(items@[j]));
                }
            }
        }
        i = i + 1;
    }
    proof {
        assert(pairs_view(out@) =~= Seq::new(items@.len(), |j: int| string_pair(items@[j])));
    }
    Ok(out)
}

impl BinanceDepthUpdate {
    /// Reads a depth event from a JSON document (see [`depth_update_from_doc`]).
    pub fn from_json(doc: &JsonValue) -> (r: Result<BinanceDepthUpdate, FeedParseError>)
        ensures
            match r {
                Ok(m) => depth_update_from_doc(*doc) == Ok::<DepthUpdateModel, ParseFailure>(m@),
                Err(e) => depth_update_from_doc(*doc) == Err::<DepthUpdateModel, ParseFailure>(e@),
            },
    {
        let event_type = read_required_str(doc, "e")?;
        let event_time_ms = read_required_u64(doc, "E")?;
        let symbol = read_required_str(doc, "s")?;
        let first_update_id = read_required_u64(doc, "U")?;
        let final_update_id = read_required_u64(doc, "u")?;
        let bids = read_required_pairs(doc, "b")?;
        let asks = read_required_pairs(doc, "a")?;
        Ok(
            BinanceDepthUpdate {
                event_type,
                event_time_ms,
                symbol,
                first_update_id,
                final_update_id,
                bids,
                asks,
            },
        )
    }
}

impl BinanceDepthSnapshot {
    /// Reads a depth snapshot from a JSON document (see
    /// [`depth_snapshot_from_doc`]).
    pub fn from_json(doc: &JsonValue) -> (r: Result<BinanceDepthSnapshot, FeedParseError>)
        ensures
            match r {
                Ok(m) => depth_snapshot_from_doc(*doc) == Ok::<DepthSnapshotModel, ParseFailure>(m@),
                Err(e) => depth_snapshot_from_doc(*doc) == Err::<DepthSnapshotModel, ParseFailure>(
                    e@,
                ),
            },
    {
        let last_update_id = read_required_u64(doc, "lastUpdateId")?;
        let bids = read_required_pairs(doc, "bids")?;
        let asks = read_required_pairs(doc, "asks")?;
        Ok(BinanceDepthSnapshot { last_update_id, bids, asks })
    }
}


/// The sequence ids and price levels of a depth event.
pub struct DepthFields {
    pub first_update_id: u64,
    pub final_update_id: u64,
    pub bids: Seq<PriceLevel>,
    pub asks: Seq<PriceLevel>,
}

/// The normalized fields of a depth event: its ids, and its bid then ask
/// levels read from text (the first bad literal is the error).
pub open spec fn depth_fields(m: DepthUpdateModel) -> Result<DepthFields, ParseFailure> {
    match levels_from_text(m.bids) {
        Err(x) => Err(x),
        Ok(b) => match levels_from_text(m.asks) {
            Err(x) => Err(x),
            Ok(a) => Ok(
                DepthFields {
                    first_update_id: m.first_update_id,
                    final_update_id: m.final_update_id,
                    bids: b,
                    asks: a,
                },
            ),
        },
    }
}

/// The normalized fields of the depth event a document holds.
pub open spec fn depth_fields_from_doc(doc: JsonValue) -> Result<DepthFields, ParseFailure> {
    match depth_update_from_doc(doc) {
        Err(x) => Err(x),
        Ok(m) => depth_fields(m),
    }
}

/// The result of normalizing a depth event agrees with the expected fields
/// or error, tagged with the given venue, symbols and receive time.
pub open spec fn depth_result_is(
    r: Result<NormalizedDepthUpdate, FeedParseError>,
    expected: Result<DepthFields, ParseFailure>,
    venue: Seq<char>,
    symbol: Seq<char>,
    venue_symbol: Seq<char>,
    receive_ts_us: i64,
) -> bool {
    match (r, expected) {
        (Ok(u), Ok(f)) => {
            &&& u.venue@ == venue
            &&& u.symbol@ == symbol
            &&& u.venue_symbol@ == venue_symbol
            &&& u.first_update_id == f.first_update_id
            &&& u.final_update_id == f.final_update_id
            &&& u.bids@ == f.bids
            &&& u.asks@ == f.asks
            &&& u.receive_ts_us == receive_ts_us
        },
        (Err(e), Err(x)) => e@ == x,
        _ => false,
    }
}

/// Normalizes a Binance depth event: the venue and symbols given, the
/// event's ids, its levels read from text, and the receive time.
pub fn normalize_depth_update(
    venue: &str,
    symbol: &str,
    venue_symbol: &str,
    msg: BinanceDepthUpdate,
    receive_ts_us: i64,
) -> (r: Result<NormalizedDepthUpdate, FeedParseError>)
    ensures
        depth_result_is(r, depth_fields(msg@), venue@, symbol@, venue_symbol@, receive_ts_us),
{
    let bids = parse_levels(&msg.bids)?;
    let asks = parse_levels(&msg.asks)?;
    Ok(
        NormalizedDepthUpdate {
            venue: String::from_str(venue),
            symbol: String::from_str(symbol),
            venue_symbol: String::from_str(venue_symbol),
            first_update_id: msg.first_update_id,
            final_update_id: msg.final_update_id,
            bids,
            asks,
            receive_ts_us,
        },
    )
}

/// Reads a Binance depth event from message text and normalizes it: text
/// that serde_json does not read as JSON is [`FeedParseError::InvalidJson`];
/// otherwise the result is that of [`depth_fields_from_doc`] on the document.
pub fn parse_depth_update(
    venue: &str,
    symbol: &str,
    venue_symbol: &str,
    raw: &str,
    receive_ts_us: i64,
) -> (r: Result<NormalizedDepthUpdate, FeedParseError>)
    ensures
        match json_document(raw@) {
            None => r is Err && r->Err_0@ == ParseFailure::InvalidJson,
            Some(doc) => depth_result_is(
                r,
                depth_fields_from_doc(doc),
                venue@,
                symbol@,
                venue_symbol@,
                receive_ts_us,
            ),
        },
{
    let doc = match parse_json(raw) {
        Some(d) => d,
        None => {
            return Err(FeedParseError::InvalidJson);
        },
    };
    let msg = BinanceDepthUpdate::from_json(&doc)?;
    normalize_depth_update(venue, symbol, venue_symbol, msg, receive_ts_us)
}

/// The normalized fields of a depth snapshot: its last update id and its
/// bid then ask levels read from text.
pub open spec fn snapshot_fields(m: DepthSnapshotModel) -> Result<DepthFields, ParseFailure> {
    match levels_from_text(m.bids) {
        Err(x) => Err(x),
        Ok(b) => match levels_from_text(m.asks) {
            Err(x) => Err(x),
            Ok(a) => Ok(
                DepthFields {
                    first_update_id: m.last_update_id,
                    final_update_id: m.last_update_id,
                    bids: b,
                    asks: a,
                },
            ),
        },
    }
}

/// The normalized fields of the snapshot a document holds.
pub open spec fn snapshot_fields_from_doc(doc: JsonValue) -> Result<DepthFields, ParseFailure> {
    match depth_snapshot_from_doc(doc) {
        Err(x) => Err(x),
        Ok(m) => snapshot_fields(m),
    }
}

/// The result of normalizing a snapshot agrees with the expected fields or
/// error (the snapshot's last update id stands in both id fields).
pub open spec fn snapshot_result_is(
    r: Result<DepthSnapshot, FeedParseError>,
    expected: Result<DepthFields, ParseFailure>,
    venue: Seq<char>,
    symbol: Seq<char>,
    venue_symbol: Seq<char>,
    receive_ts_us: i64,
) -> bool {
    match (r, expected) {
        (Ok(u), Ok(f)) => {
            &&& u.venue@ == venue
            &&& u.symbol@ == symbol
            &&& u.venue_symbol@ == venue_symbol
            &&& u.last_update_id == f.final_update_id
            &&& u.bids@ == f.bids
            &&& u.asks@ == f.asks
            &&& u.receive_ts_us == receive_ts_us
        },
        (Err(e), Err(x)) => e@ == x,
        _ => false,
    }
}

/// Normalizes a Binance REST depth snapshot.
pub fn normalize_depth_snapshot(
    venue: &str,
    symbol: &str,
    venue_symbol: &str,
    snapshot: BinanceDepthSnapshot,
    receive_ts_us: i64,
) -> (r: Result<DepthSnapshot, FeedParseError>)
    ensures
        snapshot_result_is(r, snapshot_fields(snapshot@), venue@, symbol@, venue_symbol@, receive_ts_us),
{
    let bids = parse_levels(&snapshot.bids)?;
    let asks = parse_levels(&snapshot.asks)?;
    Ok(
        DepthSnapshot {
            venue: String::from_str(venue),
            symbol: String::from_str(symbol),
            venue_symbol: String::from_str(venue_symbol),
            last_update_id: snapshot.last_update_id,
            bids,
            asks,
            receive_ts_us,
        },
    )
}

/// Reads a Binance REST depth snapshot from the response body and
/// normalizes it (see [`snapshot_fields_from_doc`]).
pub fn parse_depth_snapshot(
    venue: &str,
    symbol: &str,
    venue_symbol: &str,
    body: &str,
    receive_ts_us: i64,
) -> (r: Result<DepthSnapshot, FeedParseError>)
    ensures
        match json_document(body@) {
            None => r is Err && r->Err_0@ == ParseFailure::InvalidJson,
            Some(doc) => snapshot_result_is(
                r,
                snapshot_fields_from_doc(doc),
                venue@,
                symbol@,
                venue_symbol@,
                receive_ts_us,
            ),
        },
{
    let doc = match parse_json(body) {
        Some(d) => d,
        None => {
            return Err(FeedParseError::InvalidJson);
        },
    };
    let snapshot = BinanceDepthSnapshot::from_json(&doc)?;
    normalize_depth_snapshot(venue, symbol, venue_symbol, snapshot, receive_ts_us)
}

} // verus!

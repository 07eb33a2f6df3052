# mm_gateway

A market-data gateway for crypto venues (Binance depth streams, Coinbase and
Kraken tickers): it keeps a local depth book per Binance market, a normalized
top-of-book store for every venue and symbol, and answers readiness, book,
quote, aggregation and routing requests over HTTP.

## Layout

- `src/` — the library, verified with Verus. Prices are integer cent ticks and
  quantities integer units of 10^-8, so every decision is exact:
  - `decimal`, `json`, `text`: reading decimal literals exactly, the JSON tree
    that `serde_json` reads, case mapping and string order.
  - `venue/`: the Binance, Coinbase and Kraken message parsers, the token
    bucket, sequence tracking, and the feed decisions (what each stream event
    calls for, reconnect backoff, what a message does to the book).
  - `book/`: the local depth book (snapshot plus diff updates with sequence
    checks) and the top-of-book store keyed by `VENUE:SYMBOL`.
  - `config`, `strategy`, `api/`: runtime settings per market, quoting, and the
    answers of the HTTP API (freshness, aggregation, routing, quotes).
- `app/` — the process around the library: configuration file loading, the
  axum HTTP server, the websocket and REST I/O of the feeds, and `main`.
- `tests/` — tests of the library's public functions.

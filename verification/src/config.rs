//! Gateway configuration and the per-market runtime settings derived from it.
use crate::text::{eq_ignore_ascii, eq_ignore_ascii_case, lowercase, to_lower, to_upper, uppercase};
use vstd::prelude::*;

verus! {

/// The whole configuration file.
#[derive(Debug, Clone)]
pub struct AppConfig {
    pub service: ServiceConfig,
    pub venues: Vec<VenueConfig>,
    pub rate_limits: RateLimitConfig,
}

/// The service's name and HTTP listen address.
#[derive(Debug, Clone)]
pub struct ServiceConfig {
    pub name: String,
    pub http_addr: String,
}

/// One venue and the markets to follow on it.
#[derive(Debug, Clone)]
pub struct VenueConfig {
    pub name: String,
    pub kind: String,
    pub ws_base_url: Option<String>,
    pub rest_base_url: Option<String>,
    pub ws_url: Option<String>,
    pub heartbeat_timeout_ms: u64,
    pub reconnect_base_delay_ms: u64,
    pub reconnect_max_delay_ms: u64,
    pub stale_after_ms: u64,
    pub markets: Vec<MarketConfig>,
}

/// A market: the gateway's symbol and the venue's own symbol for it.
#[derive(Debug, Clone)]
pub struct MarketConfig {
    pub symbol: String,
    pub venue_symbol: String,
}

/// Everything a feed task needs for one venue and market.
#[derive(Debug, Clone)]
pub struct VenueRuntimeConfig {
    pub name: String,
    pub kind: VenueKind,
    pub symbol: String,
    pub venue_symbol: String,
    pub stream_url: String,
    pub snapshot_url: Option<String>,
    pub heartbeat_timeout_ms: u64,
    pub reconnect_base_delay_ms: u64,
    pub reconnect_max_delay_ms: u64,
    pub stale_after_ms: u64,
}

/// The supported venue protocols.
#[derive(Debug, Clone, Copy, PartialEq, Eq, Structural)]
pub enum VenueKind {
    Binance,
    Coinbase,
    Kraken,
}

/// Outbound rate limits.
#[derive(Debug, Clone)]
pub struct RateLimitConfig {
    pub outbound_messages_per_second: u32,
}

/// Why a configuration cannot be turned into runtime settings.
#[derive(Debug)]
pub enum ConfigError {
    /// The venue kind, in lower case, is none of `binance`, `coinbase`,
    /// `kraken`.
    UnsupportedVenueKind(String),
    /// A Binance venue with markets has no `ws_base_url`.
    MissingWsBaseUrl,
    /// A Binance venue with markets has no `rest_base_url`.
    MissingRestBaseUrl,
    /// A Coinbase or Kraken venue with markets (named here) has no `ws_url`.
    MissingWsUrl(String),
}

/// [`ConfigError`] with its text as a character sequence.
pub enum ConfigFailure {
    UnsupportedVenueKind(Seq<char>),
    MissingWsBaseUrl,
    MissingRestBaseUrl,
    MissingWsUrl(Seq<char>),
}

impl View for ConfigError {
    type V = ConfigFailure;

    open spec fn view(&self) -> ConfigFailure {
        match self {
            ConfigError::UnsupportedVenueKind(k) => ConfigFailure::UnsupportedVenueKind(k@),
            ConfigError::MissingWsBaseUrl => ConfigFailure::MissingWsBaseUrl,
            ConfigError::MissingRestBaseUrl => ConfigFailure::MissingRestBaseUrl,
            ConfigError::MissingWsUrl(n) => ConfigFailure::MissingWsUrl(n@),
        }
    }
}

/// The venue kind a configured kind names, compared in lower case.
pub open spec fn venue_kind_of(raw: Seq<char>) -> Option<VenueKind> {
    if lowercase(raw) == "binance"@ {
        Some(VenueKind::Binance)
    } else if lowercase(raw) == "coinbase"@ {
        Some(VenueKind::Coinbase)
    } else if lowercase(raw) == "kraken"@ {
        Some(VenueKind::Kraken)
    } else {
        None
    }
}

/// Reads a venue kind, case-insensitively (see [`venue_kind_of`]).
pub fn parse_venue_kind(raw: &str) -> (r: Result<VenueKind, ConfigError>)
    ensures
        match r {
            Ok(k) => venue_kind_of(raw@) == Some(k),
            Err(e) => venue_kind_of(raw@) is None && e@ == ConfigFailure::UnsupportedVenueKind(
                lowercase(raw@),
            ),
        },
{
    let lower = to_lower(raw);
    proof {
        reveal_strlit("binance");
        reveal_strlit("coinbase");
        reveal_strlit("kraken");
    }
    if lower == String::from_str("binance") {
        Ok(VenueKind::Binance)
    } else if lower == String::from_str("coinbase") {
        Ok(VenueKind::Coinbase)
    } else if lower == String::from_str("kraken") {
        Ok(VenueKind::Kraken)
    } else {
        Err(ConfigError::UnsupportedVenueKind(lower))
    }
}

/// What stops a venue from yielding runtime settings, if anything: an
/// unsupported kind; or, for a venue with markets, a missing URL.
pub open spec fn venue_error(v: VenueConfig) -> Option<ConfigFailure> {
    match venue_kind_of(v.kind@) {
        None => Some(ConfigFailure::UnsupportedVenueKind(lowercase(v.kind@))),
        Some(k) => if v.markets@.len() == 0 {
            None
        } else if k == VenueKind::Binance {
            if v.ws_base_url is None {
                Some(ConfigFailure::MissingWsBaseUrl)
            } else if v.rest_base_url is None {
                Some(ConfigFailure::MissingRestBaseUrl)
            } else {
                None
            }
        } else if v.ws_url is None {
            Some(ConfigFailure::MissingWsUrl(v.name@))
        } else {
            None
        },
    }
}

/// The first venue error, in configuration order.
pub open spec fn config_error(vs: Seq<VenueConfig>) -> Option<ConfigFailure>
    decreases vs.len(),
{
    if vs.len() == 0 {
        None
    } else {
        match config_error(vs.drop_last()) {
            Some(e) => Some(e),
            None => venue_error(vs.last()),
        }
    }
}

/// Every (venue, market) pair, venues in order, each venue's markets in
/// order.
pub open spec fn flat_markets(vs: Seq<VenueConfig>) -> Seq<(VenueConfig, MarketConfig)>
    decreases vs.len(),
{
    if vs.len() == 0 {
        Seq::empty()
    } else {
        flat_markets(vs.drop_last()) + Seq::new(
            vs.last().markets@.len(),
            |j: int| (vs.last(), vs.last().markets@[j]),
        )
    }
}

/// `r` holds the runtime settings of market `m` on venue `v` of kind `kind`.
///
/// Binance markets stream `<ws_base_url>/<venue symbol in lower
/// case>@depth@100ms` and take snapshots from `<rest_base_url>/api/v3/
/// depth?symbol=<VENUE SYMBOL>&limit=1000`, with the venue symbol kept in
/// upper case; other venues stream `ws_url` with the venue symbol as
/// configured and take no snapshot. The symbol is in upper case; the
/// timing settings are the venue's.
pub open spec fn runtime_config_is(r: VenueRuntimeConfig, v: VenueConfig, m: MarketConfig, kind: VenueKind) -> bool {
    &&& r.name@ == v.name@
    &&& r.kind == kind
    &&& r.symbol@ == uppercase(m.symbol@)
    &&& r.heartbeat_timeout_ms == v.heartbeat_timeout_ms
    &&& r.reconnect_base_delay_ms == v.reconnect_base_delay_ms
    &&& r.reconnect_max_delay_ms == v.reconnect_max_delay_ms
    &&& r.stale_after_ms == v.stale_after_ms
    &&& if kind == VenueKind::Binance {
        &&& r.venue_symbol@ == uppercase(m.venue_symbol@)
        &&& r.stream_url@ == v.ws_base_url->Some_0@ + "/"@ + lowercase(m.venue_symbol@)
            + "@depth@100ms"@
        &&& r.snapshot_url matches Some(u) && u@ == v.rest_base_url->Some_0@
            + "/api/v3/depth?symbol="@ + uppercase(m.venue_symbol@) + "&limit=1000"@
    } else {
        &&& r.venue_symbol@ == m.venue_symbol@
        &&& r.stream_url@ == v.ws_url->Some_0@
        &&& r.snapshot_url is None
    }
}

/// Builds the runtime settings of one market.
fn runtime_for_market(venue: &VenueConfig, market: &MarketConfig, kind: VenueKind) -> (r: Result<
    VenueRuntimeConfig,
    ConfigError,
>)
    requires
        venue_kind_of(venue.kind@) == Some(kind),
        venue.markets@.len() > 0,
    ensures
        match r {
            Ok(c) => venue_error(*venue) is None && runtime_config_is(c, *venue, *market, kind),
            Err(e) => venue_error(*venue) == Some(e@),
        },
{
    let symbol_upper = to_upper(market.symbol.as_str());
    match kind {
        VenueKind::Binance => {
            let ws_base = match &venue.ws_base_url {
                Some(u) => u,
                None => {
                    return Err(ConfigError::MissingWsBaseUrl);
                },
            };
            let rest_base = match &venue.rest_base_url {
                Some(u) => u,
                None => {
                    return Err(ConfigError::MissingRestBaseUrl);
                },
            };
            let venue_symbol_upper = to_upper(market.venue_symbol.as_str());
            let venue_symbol_lower = to_lower(market.venue_symbol.as_str());
            let mut stream_url = ws_base.clone();
            stream_url.append("/");
            stream_url.append(venue_symbol_lower.as_str());
            stream_url.append("@depth@100ms");
            let mut snapshot_url = rest_base.clone();
            snapshot_url.append("/api/v3/depth?symbol=");
            snapshot_url.append(venue_symbol_upper.as_str());
            snapshot_url.append("&limit=1000");
            Ok(
                VenueRuntimeConfig {
                    name: venue.name.clone(),
                    kind,
                    symbol: symbol_upper,
                    venue_symbol: venue_symbol_upper,
                    stream_url,
                    snapshot_url: Some(snapshot_url),
                    heartbeat_timeout_ms: venue.heartbeat_timeout_ms,
                    reconnect_base_delay_ms: venue.reconnect_base_delay_ms,
                    reconnect_max_delay_ms: venue.reconnect_max_delay_ms,
                    stale_after_ms: venue.stale_after_ms,
                },
            )
        },
        _ => {
            let ws_url = match &venue.ws_url {
                Some(u) => u,
                None => {
                    return Err(ConfigError::MissingWsUrl(venue.name.clone()));
                },
            };
            Ok(
                VenueRuntimeConfig {
                    name: venue.name.clone(),
                    kind,
                    symbol: symbol_upper,
                    venue_symbol: market.venue_symbol.clone(),
                    stream_url: ws_url.clone(),
                    snapshot_url: None,
                    heartbeat_timeout_ms: venue.heartbeat_timeout_ms,
                    reconnect_base_delay_ms: venue.reconnect_base_delay_ms,
                    reconnect_max_delay_ms: venue.reconnect_max_delay_ms,
                    stale_after_ms: venue.stale_after_ms,
                },
            )
        },
    }
}


/// The staleness threshold of the first venue named `name`, ignoring
/// ASCII case.
pub open spec fn configured_stale(vs: Seq<VenueConfig>, name: Seq<char>) -> Option<u64>
    decreases vs.len(),
{
    if vs.len() == 0 {
        None
    } else if eq_ignore_ascii(vs[0].name@, name) {
        Some(vs[0].stale_after_ms)
    } else {
        configured_stale(vs.drop_first(), name)
    }
}

/// Law: a venue's staleness threshold is that of the first configured
/// venue whose name equals the asked name ignoring ASCII case; when no
/// venue has that name there is none.
pub proof fn law_stale_lookup_is_first_match(vs: Seq<VenueConfig>, name: Seq<char>, i: int)
    ensures
        0 <= i < vs.len() && eq_ignore_ascii(vs[i].name@, name) && (forall|j: int|
            0 <= j < i ==> !eq_ignore_ascii(#[trigger] vs[j].name@, name)) ==> configured_stale(vs, name)
            == Some(vs[i].stale_after_ms),
        (forall|j: int| 0 <= j < vs.len() ==> !eq_ignore_ascii(#[trigger] vs[j].name@, name))
            ==> configured_stale(vs, name) is None,
    decreases vs.len(),
{
    if vs.len() > 0 {
        let t = vs.drop_first();
        if i > 0 && i < vs.len() && eq_ignore_ascii(vs[i].name@, name) && (forall|j: int|
            0 <= j < i ==> !eq_ignore_ascii(#[trigger] vs[j].name@, name)) {
            assert(!eq_ignore_ascii(vs[0].name@, name));
            assert forall|j: int| 0 <= j < i - 1 implies !eq_ignore_ascii(#[trigger] t[j].name@, name) by {
                assert(t[j] == vs[j + 1]);
                assert(!eq_ignore_ascii(vs[j + 1].name@, name));
            }
            assert(t[i - 1] == vs[i]);
        }
        law_stale_lookup_is_first_match(t, name, i - 1);
        if forall|j: int| 0 <= j < vs.len() ==> !eq_ignore_ascii(#[trigger] vs[j].name@, name) {
            assert(!eq_ignore_ascii(vs[0].name@, name));
            assert forall|j: int| 0 <= j < t.len() implies !eq_ignore_ascii(#[trigger] t[j].name@, name) by {
                assert(t[j] == vs[j + 1]);
                assert(!eq_ignore_ascii(vs[j + 1].name@, name));
            }
        }
    }
}

/// The kind of a venue whose kind is supported.
pub open spec fn kind_of(v: VenueConfig) -> VenueKind {
    venue_kind_of(v.kind@)->Some_0
}

proof fn lemma_flat_markets_len(vs: Seq<VenueConfig>, i: int)
    requires
        0 <= i < vs.len(),
    ensures
        flat_markets(vs.take(i + 1)) == flat_markets(vs.take(i)) + Seq::new(
            vs[i].markets@.len(),
            |j: int| (vs[i], vs[i].markets@[j]),
        ),
        config_error(vs.take(i + 1)) == match config_error(vs.take(i)) {
            Some(e) => Some(e),
            None => venue_error(vs[i]),
        },
{
    assert(vs.take(i + 1).drop_last() =~= vs.take(i));
    assert(vs.take(i + 1).last() == vs[i]);
}

impl AppConfig {
    /// The runtime settings of every configured market, venues in order and
    /// each venue's markets in order (see [`runtime_config_is`]); the first
    /// venue that cannot yield settings (see [`venue_error`]) is the error.
    pub fn venue_runtime_configs(&self) -> (r: Result<Vec<VenueRuntimeConfig>, ConfigError>)
        ensures
            match r {
                Ok(out) => config_error(self.venues@) is None && out@.len() == flat_markets(
                    self.venues@,
                ).len() && forall|k: int|
                    0 <= k < out@.len() ==> runtime_config_is(
                        #[trigger] out@[k],
                        flat_markets(self.venues@)[k].0,
                        flat_markets(self.venues@)[k].1,
                        kind_of(flat_markets(self.venues@)[k].0),
                    ),
                Err(e) => config_error(self.venues@) == Some(e@),
            },
    {
        let ghost vs = self.venues@;
        let mut out: Vec<VenueRuntimeConfig> = Vec::new();
        let mut i: usize = 0;
        proof {
            assert(vs.take(0) =~= Seq::<VenueConfig>::empty());
        }
        while i < self.venues.len()
            invariant
                i <= self.venues.len(),
                vs == self.venues@,
                config_error(vs.take(i as int)) is None,
                out@.len() == flat_markets(vs.take(i as int)).len(),
                forall|k: int|
                    0 <= k < out@.len() ==> runtime_config_is(
                        #[trigger] out@[k],
                        flat_markets(vs.take(i as int))[k].0,
                        flat_markets(vs.take(i as int))[k].1,
                        kind_of(flat_markets(vs.take(i as int))[k].0),
                    ),
            decreases self.venues.len() - i,
        {
            let venue = &self.venues[i];
            proof {
                lemma_flat_markets_len(vs, i as int);
            }
            let kind = match parse_venue_kind(venue.kind.as_str()) {
                Ok(k) => k,
                Err(e) => {
                    proof {
                        assert(vs.take(vs.len() as int) =~= vs);
                        lemma_config_error_prefix(vs, i + 1);
                    }
                    return Err(e);
                },
            };
            let ghost base = out@;
            let ghost fb = flat_markets(vs.take(i as int));
            let mut j: usize = 0;
            while j < venue.markets.len()
                invariant
                    j <= venue.markets.len(),
                    i < vs.len(),
                    vs == self.venues@,
                    *venue == vs[i as int],
                    config_error(vs.take(i as int)) is None,
                    config_error(vs.take(i + 1)) == venue_error(vs[i as int]),
                    venue_kind_of(venue.kind@) == Some(kind),
                    base.len() == fb.len(),
                    out@.len() == base.len() + j,
                    forall|k: int| 0 <= k < base.len() ==> out@[k] == base[k],
                    forall|k: int|
                        0 <= k < base.len() ==> runtime_config_is(
                            #[trigger] base[k],
                            fb[k].0,
                            fb[k].1,
                            kind_of(fb[k].0),
                        ),
                    forall|k: int|
                        0 <= k < j ==> runtime_config_is(
                            #[trigger] out@[base.len() + k],
                            *venue,
                            venue.markets@[k],
                            kind,
                        ),
                    j > 0 ==> venue_error(*venue) is None,
                decreases venue.markets.len() - j,
            {
                match runtime_for_market(venue, &venue.markets[j], kind) {
                    Ok(c) => {
                        out.push(c);
                    },
                    Err(e) => {
                        proof {
                            lemma_config_error_prefix(vs, i + 1);
                        }
                        return Err(e);
                    },
                }
                j = j + 1;
            }
            proof {
                let fa = flat_markets(vs.take(i + 1));
                let tail = Seq::new(vs[i as int].markets@.len(), |q: int| (vs[i as int], vs[i as int].markets@[q]));
                assert(fa == fb + tail);
                if venue.markets@.len() == 0 {
                    assert(venue_error(*venue) is None);
                }
                assert forall|k: int| 0 <= k < out@.len() implies runtime_config_is(
                    #[trigger] out@[k],
                    fa[k].0,
                    fa[k].1,
                    kind_of(fa[k].0),
                ) by {
                    if k < base.len() {
                        assert(out@[k] == base[k]);
                        assert(fa[k] == fb[k]);
                    } else {
                        let q = k - base.len();
                        assert(fa[k] == tail[q]);
                        assert(out@[base.len() + q] == out@[k]);
                    }
                }
            }
            i = i + 1;
        }
        proof {
            assert(vs.take(vs.len() as int) =~= vs);
        }
        Ok(out)
    }

    /// The first market of the first venue: the venue's name and the
    /// market's symbol, both in upper case.
    pub fn default_market(&self) -> (r: Option<(String, String)>)
        ensures
            match r {
                Some(p) => self.venues@.len() > 0 && self.venues@[0].markets@.len() > 0 && p.0@
                    == uppercase(self.venues@[0].name@) && p.1@ == uppercase(
                    self.venues@[0].markets@[0].symbol@,
                ),
                None => self.venues@.len() == 0 || self.venues@[0].markets@.len() == 0,
            },
    {
        if self.venues.len() == 0 {
            return None;
        }
        let venue = &self.venues[0];
        if venue.markets.len() == 0 {
            return None;
        }
        let market = &venue.markets[0];
        Some((to_upper(venue.name.as_str()), to_upper(market.symbol.as_str())))
    }

    /// The staleness threshold of the first venue whose name equals
    /// `venue_name` ignoring ASCII case (see [`configured_stale`]).
    pub fn stale_after_ms_for(&self, venue_name: &str) -> (r: Option<u64>)
        ensures
            r == configured_stale(self.venues@, venue_name@),
    {
        let mut i: usize = 0;
        proof {
            assert(self.venues@.skip(0) =~= self.venues@);
        }
        while i < self.venues.len()
            invariant
                i <= self.venues.len(),
                configured_stale(self.venues@, venue_name@) == configured_stale(
                    self.venues@.skip(i as int),
                    venue_name@,
                ),
            decreases self.venues.len() - i,
        {
            proof {
                let t = self.venues@.skip(i as int);
                assert(t[0] == self.venues@[i as int]);
                assert(t.drop_first() =~= self.venues@.skip(i + 1));
            }
            if eq_ignore_ascii_case(self.venues[i].name.as_str(), venue_name) {
                return Some(self.venues[i].stale_after_ms);
            }
            i = i + 1;
        }
        None
    }

    /// Every configured (venue, symbol) pair, venues in order and each
    /// venue's markets in order, both names in upper case.
    pub fn all_configured_markets(&self) -> (r: Vec<(String, String)>)
        ensures
            r@.len() == flat_markets(self.venues@).len(),
            forall|k: int|
                0 <= k < r@.len() ==> (#[trigger] r@[k]).0@ == uppercase(
                    flat_markets(self.venues@)[k].0.name@,
                ) && r@[k].1@ == uppercase(flat_markets(self.venues@)[k].1.symbol@),
    {
        let ghost vs = self.venues@;
        let mut out: Vec<(String, String)> = Vec::new();
        let mut i: usize = 0;
        proof {
            assert(vs.take(0) =~= Seq::<VenueConfig>::empty());
        }
        while i < self.venues.len()
            invariant
                i <= self.venues.len(),
                vs == self.venues@,
                out@.len() == flat_markets(vs.take(i as int)).len(),
                forall|k: int|
                    0 <= k < out@.len() ==> (#[trigger] out@[k]).0@ == uppercase(
                        flat_markets(vs.take(i as int))[k].0.name@,
                    ) && out@[k].1@ == uppercase(flat_markets(vs.take(i as int))[k].1.symbol@),
            decreases self.venues.len() - i,
        {
            let venue = &self.venues[i];
            proof {
                lemma_flat_markets_len(vs, i as int);
            }
            let ghost base = out@;
            let ghost fb = flat_markets(vs.take(i as int));
            let mut j: usize = 0;
            while j < venue.markets.len()
                invariant
                    j <= venue.markets.len(),
                    *venue == vs[i as int],
                    base.len() == fb.len(),
                    out@.len() == base.len() + j,
                    forall|k: int| 0 <= k < base.len() ==> out@[k] == base[k],
                    forall|k: int|
                        0 <= k < base.len() ==> (#[trigger] base[k]).0@ == uppercase(fb[k].0.name@)
                            && base[k].1@ == uppercase(fb[k].1.symbol@),
                    forall|k: int|
                        0 <= k < j ==> (#[trigger] out@[base.len() + k]).0@ == uppercase(venue.name@)
                            && out@[base.len() + k].1@ == uppercase(venue.markets@[k].symbol@),
                decreases venue.markets.len() - j,
            {
                let name = to_upper(venue.name.as_str());
                let symbol = to_upper(venue.markets[j].symbol.as_str());
                out.push((name, symbol));
                j = j + 1;
            }
            proof {
                let fa = flat_markets(vs.take(i + 1));
                let tail = Seq::new(vs[i as int].markets@.len(), |q: int| (vs[i as int], vs[i as int].markets@[q]));
                assert(fa == fb + tail);
                assert forall|k: int| 0 <= k < out@.len() implies (#[trigger] out@[k]).0@ == uppercase(
                    fa[k].0.name@,
                ) && out@[k].1@ == uppercase(fa[k].1.symbol@) by {
                    if k < base.len() {
                        assert(out@[k] == base[k]);
                        assert(fa[k] == fb[k]);
                    } else {
                        let q = k - base.len();
                        assert(fa[k] == tail[q]);
                        assert(out@[base.len() + q] == out@[k]);
                    }
                }
            }
            i = i + 1;
        }
        proof {
            assert(vs.take(vs.len() as int) =~= vs);
        }
        out
    }
}

/// Once a prefix of the venues has an error, every longer prefix has the
/// same first error.
proof fn lemma_config_error_prefix(vs: Seq<VenueConfig>, n: int)
    requires
        0 <= n <= vs.len(),
        config_error(vs.take(n)) is Some,
    ensures
        config_error(vs) == config_error(vs.take(n)),
    decreases vs.len() - n,
{
    if n < vs.len() {
        lemma_flat_markets_len(vs, n);
        lemma_config_error_prefix(vs, n + 1);
    } else {
        assert(vs.take(n) =~= vs);
    }
}

} // verus!

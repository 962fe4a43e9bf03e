//! Configuration of the data client, and the instruments that it describes.

use vstd::arithmetic::power::lemma_pow_adds;
use vstd::prelude::*;

use crate::decimal::{power_of_ten, ten_to};
use crate::fixed::{Fixed, FIXED_PLACES};
use crate::text::same_text;

verus! {

/// The client's id.
pub const MARKETSTORE_CLIENT_ID: &'static str = "MARKETSTORE";

/// The client's name, under which its factory is registered.
pub const MARKETSTORE: &'static str = "MARKETSTORE";

/// The venue of instruments where none is configured.
pub const DEFAULT_VENUE: &'static str = "MARKETSTORE";

/// The query address of a local store.
pub const DEFAULT_GRPC_ENDPOINT: &'static str = "http://127.0.0.1:5995";

/// The streaming address of a local store.
pub const DEFAULT_WS_ENDPOINT: &'static str = "ws://127.0.0.1:5993/ws";

/// An equity to serve.
#[derive(Clone, Debug)]
pub struct InstrumentSpec {
    pub symbol: String,
    pub price_precision: u8,
    pub size_precision: u8,
    /// Shares per lot; zero stands for one.
    pub lot_size: u64,
}

impl InstrumentSpec {
    /// An equity to serve.
    pub fn new(symbol: String, price_precision: u8, size_precision: u8, lot_size: u64) -> (r:
        InstrumentSpec)
        ensures
            r == (InstrumentSpec { symbol, price_precision, size_precision, lot_size }),
    {
        InstrumentSpec { symbol, price_precision, size_precision, lot_size }
    }
}

/// Configuration of the data client.
#[derive(Clone, Debug)]
pub struct MarketStoreDataClientConfig {
    /// The address for queries.
    pub grpc_endpoint: String,
    /// The venue of every instrument.
    pub venue: String,
    /// The equities to serve.
    pub instruments: Vec<InstrumentSpec>,
    /// The price precision of other symbols.
    pub price_precision: u8,
    /// The size precision of other symbols.
    pub size_precision: u8,
}

/// The place of the first instrument from `i` on with this symbol.
pub open spec fn spec_from(specs: Seq<InstrumentSpec>, symbol: Seq<char>, i: int) -> Option<int>
    decreases specs.len() - i,
{
    if i < 0 || i >= specs.len() {
        None
    } else if specs[i].symbol@ == symbol {
        Some(i)
    } else {
        spec_from(specs, symbol, i + 1)
    }
}

impl MarketStoreDataClientConfig {
    /// A configuration.
    pub fn new(
        grpc_endpoint: String,
        venue: String,
        instruments: Vec<InstrumentSpec>,
        price_precision: u8,
        size_precision: u8,
    ) -> (r: MarketStoreDataClientConfig)
        ensures
            r.grpc_endpoint == grpc_endpoint,
            r.venue == venue,
            r.instruments == instruments,
            r.price_precision == price_precision,
            r.size_precision == size_precision,
    {
        MarketStoreDataClientConfig {
            grpc_endpoint,
            venue,
            instruments,
            price_precision,
            size_precision,
        }
    }

    /// The price and size precisions of a symbol: those of the first instrument with it, else
    /// those of other symbols.
    pub fn precision_for(&self, symbol: &str) -> (r: (u8, u8))
        ensures
            r == match spec_from(self.instruments@, symbol@, 0) {
                Some(i) => (
                    self.instruments@[i].price_precision,
                    self.instruments@[i].size_precision,
                ),
                None => (self.price_precision, self.size_precision),
            },
    {
        let mut i: usize = 0;
        while i < self.instruments.len()
            invariant
                i <= self.instruments@.len(),
                spec_from(self.instruments@, symbol@, 0) == spec_from(
                    self.instruments@,
                    symbol@,
                    i as int,
                ),
            decreases self.instruments@.len() - i,
        {
            let spec_i = &self.instruments[i];
            if same_text(spec_i.symbol.as_str(), symbol) {
                return (spec_i.price_precision, spec_i.size_precision);
            }
            i = i + 1;
        }
        (self.price_precision, self.size_precision)
    }
}

/// The factory of data clients.
#[derive(Clone, Copy, Debug)]
pub struct MarketStoreDataClientFactory;

impl MarketStoreDataClientFactory {
    /// The factory.
    pub fn new() -> (r: MarketStoreDataClientFactory)
        ensures
            r == MarketStoreDataClientFactory,
    {
        MarketStoreDataClientFactory
    }

    /// The name that the factory is registered under.
    pub fn name(&self) -> (r: &'static str)
        ensures
            r@ == MARKETSTORE@,
    {
        MARKETSTORE
    }

    /// The name of the configuration that the factory takes.
    pub fn config_type(&self) -> (r: &'static str)
        ensures
            r@ == "MarketStoreDataClientConfig"@,
    {
        "MarketStoreDataClientConfig"
    }
}

impl Default for MarketStoreDataClientFactory {
    fn default() -> (r: MarketStoreDataClientFactory)
        ensures
            r == MarketStoreDataClientFactory,
    {
        MarketStoreDataClientFactory
    }
}

// ----- instruments -----

/// The code of the currency that equities are quoted in.
pub const EQUITY_CURRENCY: &'static str = "USD";

/// An equity made from its description.
#[derive(Clone, Debug)]
pub struct EquityDefinition {
    pub symbol: String,
    pub venue: String,
    /// The code of the currency that it is quoted in.
    pub currency: String,
    pub price_precision: u8,
    /// The least change of the price: one at the last decimal place.
    pub price_increment: Fixed,
    /// Shares per lot; at least one.
    pub lot_size: u64,
}

/// Whether `e` is the equity that `s` describes, at a venue.
pub open spec fn defines(e: EquityDefinition, s: InstrumentSpec, venue: Seq<char>) -> bool {
    &&& e.symbol@ == s.symbol@
    &&& e.venue@ == venue
    &&& e.currency@ == EQUITY_CURRENCY@
    &&& e.price_precision == s.price_precision
    &&& e.price_increment.precision == s.price_precision
    &&& e.price_increment.raw == ten_to((FIXED_PLACES - s.price_precision) as nat)
    &&& e.lot_size == if s.lot_size == 0 {
        1
    } else {
        s.lot_size
    }
}

/// The equity that `s` describes, at a venue.
pub fn equity_from_spec(s: &InstrumentSpec, venue: &str) -> (r: EquityDefinition)
    requires
        s.price_precision <= FIXED_PLACES,
    ensures
        defines(r, *s, venue@),
{
    EquityDefinition {
        symbol: s.symbol.clone(),
        venue: venue.to_owned(),
        currency: EQUITY_CURRENCY.to_owned(),
        price_precision: s.price_precision,
        price_increment: Fixed {
            raw: power_of_ten((FIXED_PLACES - s.price_precision) as u32),
            precision: s.price_precision,
        },
        lot_size: if s.lot_size == 0 {
            1
        } else {
            s.lot_size
        },
    }
}

/// The equities that a configuration describes, in their order.
pub fn instruments_from_config(config: &MarketStoreDataClientConfig) -> (r: Vec<EquityDefinition>)
    requires
        forall|i: int|
            0 <= i < config.instruments@.len() ==> (
            #[trigger] config.instruments@[i]).price_precision <= FIXED_PLACES,
    ensures
        r@.len() == config.instruments@.len(),
        forall|i: int|
            0 <= i < r@.len() ==> defines(
                #[trigger] r@[i],
                config.instruments@[i],
                config.venue@,
            ),
{
    let mut out: Vec<EquityDefinition> = Vec::new();
    let mut i: usize = 0;
    while i < config.instruments.len()
        invariant
            i <= config.instruments@.len(),
            forall|k: int|
                0 <= k < config.instruments@.len() ==> (
                #[trigger] config.instruments@[k]).price_precision <= FIXED_PLACES,
            out@.len() == i,
            forall|k: int|
                0 <= k < i ==> defines(
                    #[trigger] out@[k],
                    config.instruments@[k],
                    config.venue@,
                ),
        decreases config.instruments@.len() - i,
    {
        out.push(equity_from_spec(&config.instruments[i], config.venue.as_str()));
        i = i + 1;
    }
    out
}

// ----- laws -----

/// An equity has the symbol and the price precision of its description, is at the client's venue
/// and quoted in US dollars, and comes in lots of at least one. As many of its price increments as
/// ten to its precision make up one whole.
pub proof fn equities_are_as_described(e: EquityDefinition, s: InstrumentSpec, venue: Seq<char>)
    requires
        defines(e, s, venue),
        s.price_precision <= FIXED_PLACES,
    ensures
        e.symbol@ == s.symbol@,
        e.venue@ == venue,
        e.currency@ == "USD"@,
        e.price_precision == s.price_precision,
        e.price_increment.precision == s.price_precision,
        e.price_increment.raw * ten_to(s.price_precision as nat) == ten_to(16),
        e.lot_size >= 1,
        s.lot_size >= 1 ==> e.lot_size == s.lot_size,
        s.lot_size == 0 ==> e.lot_size == 1,
{
    lemma_pow_adds(10, (FIXED_PLACES - s.price_precision) as nat, s.price_precision as nat);
}

} // verus!

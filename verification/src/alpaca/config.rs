//! Configuration of the execution client.

use vstd::prelude::*;

use crate::alpaca::http::client::check_credentials;
use crate::alpaca::http::error::MISSING_CREDENTIALS;
use crate::text::{lowered, same_text};

verus! {

/// The routing key: the factory's name, and the venue.
pub const ALPACA: &'static str = "ALPACA";

/// The REST address for paper trading.
pub const PAPER_API_BASE_URL: &'static str = "https://paper-api.alpaca.markets";

/// The REST address for live trading.
pub const LIVE_API_BASE_URL: &'static str = "https://api.alpaca.markets";

/// The address of the trade updates for paper trading.
pub const PAPER_WS_URL: &'static str = "wss://paper-api.alpaca.markets/stream";

/// The address of the trade updates for live trading.
pub const LIVE_WS_URL: &'static str = "wss://api.alpaca.markets/stream";

/// Paper or live trading.
#[derive(Clone, Copy, Debug, PartialEq, Eq, Structural)]
pub enum AlpacaMode {
    /// Trading with paper money.
    Paper,
    /// Trading with real money.
    Live,
}

impl Default for AlpacaMode {
    fn default() -> (r: AlpacaMode)
        ensures
            r == AlpacaMode::Paper,
    {
        AlpacaMode::Paper
    }
}

/// What is said of a mode that is neither paper nor live.
pub open spec fn mode_error(lowercase: Seq<char>) -> Seq<char> {
    "Invalid ALPACA_MODE '"@ + lowercase + "', expected 'paper' or 'live'"@
}

impl AlpacaMode {
    /// The mode that a text names, whatever its case.
    pub fn parse(s: &str) -> (r: Result<AlpacaMode, String>)
        ensures
            match r {
                Ok(AlpacaMode::Paper) => lowered(s@) == "paper"@,
                Ok(AlpacaMode::Live) => lowered(s@) == "live"@,
                Err(e) => lowered(s@) != "paper"@ && lowered(s@) != "live"@ && e@ == mode_error(
                    lowered(s@),
                ),
            },
    {
        let lower = s.to_ascii_lowercase();
        if same_text(lower.as_str(), "paper") {
            Ok(AlpacaMode::Paper)
        } else if same_text(lower.as_str(), "live") {
            Ok(AlpacaMode::Live)
        } else {
            Err(
                "Invalid ALPACA_MODE '".to_owned().concat(lower.as_str()).concat(
                    "', expected 'paper' or 'live'",
                ),
            )
        }
    }

    /// The mode's name.
    pub open spec fn named(self) -> Seq<char> {
        match self {
            AlpacaMode::Paper => "paper"@,
            AlpacaMode::Live => "live"@,
        }
    }

    /// The mode's name.
    pub fn name(self) -> (r: &'static str)
        ensures
            r@ == self.named(),
    {
        match self {
            AlpacaMode::Paper => "paper",
            AlpacaMode::Live => "live",
        }
    }

    /// The REST address of the mode.
    pub open spec fn api_base_url(self) -> Seq<char> {
        match self {
            AlpacaMode::Paper => PAPER_API_BASE_URL@,
            AlpacaMode::Live => LIVE_API_BASE_URL@,
        }
    }

    /// The address of the mode's trade updates.
    pub open spec fn ws_url(self) -> Seq<char> {
        match self {
            AlpacaMode::Paper => PAPER_WS_URL@,
            AlpacaMode::Live => LIVE_WS_URL@,
        }
    }

    /// The REST address of the mode.
    pub fn default_api_base_url(self) -> (r: &'static str)
        ensures
            r@ == self.api_base_url(),
    {
        match self {
            AlpacaMode::Paper => PAPER_API_BASE_URL,
            AlpacaMode::Live => LIVE_API_BASE_URL,
        }
    }

    /// The address of the mode's trade updates.
    pub fn default_ws_url(self) -> (r: &'static str)
        ensures
            r@ == self.ws_url(),
    {
        match self {
            AlpacaMode::Paper => PAPER_WS_URL,
            AlpacaMode::Live => LIVE_WS_URL,
        }
    }
}

/// Configuration of the execution client.
#[derive(Clone, Debug)]
pub struct AlpacaExecClientConfig {
    pub mode: AlpacaMode,
    pub api_key: Option<String>,
    pub api_secret: Option<String>,
    /// In place of the mode's REST address.
    pub api_base_url: Option<String>,
    /// In place of the mode's trade-updates address.
    pub ws_url: Option<String>,
    pub account_id: Option<String>,
}

impl Default for AlpacaExecClientConfig {
    /// Paper trading, with nothing else given.
    fn default() -> (r: AlpacaExecClientConfig)
        ensures
            r.mode == AlpacaMode::Paper,
            r.api_key is None,
            r.api_secret is None,
            r.api_base_url is None,
            r.ws_url is None,
            r.account_id is None,
    {
        AlpacaExecClientConfig {
            mode: AlpacaMode::Paper,
            api_key: None,
            api_secret: None,
            api_base_url: None,
            ws_url: None,
            account_id: None,
        }
    }
}

impl AlpacaExecClientConfig {
    /// A configuration.
    pub fn new(
        mode: AlpacaMode,
        api_key: Option<String>,
        api_secret: Option<String>,
        api_base_url: Option<String>,
        ws_url: Option<String>,
        account_id: Option<String>,
    ) -> (r: AlpacaExecClientConfig)
        ensures
            r.mode == mode,
            r.api_key == api_key,
            r.api_secret == api_secret,
            r.api_base_url == api_base_url,
            r.ws_url == ws_url,
            r.account_id == account_id,
    {
        AlpacaExecClientConfig { mode, api_key, api_secret, api_base_url, ws_url, account_id }
    }

    /// The REST address: the given one, else the mode's.
    pub open spec fn rest_address(self) -> Seq<char> {
        match self.api_base_url {
            Some(url) => url@,
            None => self.mode.api_base_url(),
        }
    }

    /// The REST address: the given one, else the mode's.
    pub fn resolved_api_base_url(&self) -> (r: &str)
        ensures
            r@ == self.rest_address(),
    {
        match &self.api_base_url {
            Some(url) => url.as_str(),
            None => self.mode.default_api_base_url(),
        }
    }

    /// The address of the trade updates: the given one, else the mode's.
    pub fn resolved_ws_url(&self) -> (r: &str)
        ensures
            r@ == match self.ws_url {
                Some(url) => url@,
                None => self.mode.ws_url(),
            },
    {
        match &self.ws_url {
            Some(url) => url.as_str(),
            None => self.mode.default_ws_url(),
        }
    }

    /// The configuration as text, without its secrets.
    pub open spec fn shown(self) -> Seq<char> {
        "AlpacaExecClientConfig(mode="@ + self.mode.named() + ", api_base_url="@
            + self.rest_address() + ")"@
    }

    /// The configuration as text, without its secrets.
    pub fn text(&self) -> (r: String)
        ensures
            r@ == self.shown(),
    {
        "AlpacaExecClientConfig(mode=".to_owned().concat(self.mode.name()).concat(
            ", api_base_url=",
        ).concat(self.resolved_api_base_url()).concat(")")
    }

    /// The key and secret to connect with, or what is wrong with them: the key is looked at first,
    /// and neither may be empty.
    pub open spec fn credentials_of(self) -> Result<(Seq<char>, Seq<char>), Seq<char>> {
        match (self.api_key, self.api_secret) {
            (None, _) => Err("Alpaca API key not configured"@),
            (_, None) => Err("Alpaca API secret not configured"@),
            (Some(key), Some(secret)) => if key@.len() == 0 || secret@.len() == 0 {
                Err("Failed to build Alpaca HTTP client: "@ + MISSING_CREDENTIALS@)
            } else {
                Ok((key@, secret@))
            },
        }
    }

    /// The key and secret to connect with.
    pub fn credentials(&self) -> (r: Result<(String, String), String>)
        ensures
            match (r, self.credentials_of()) {
                (Ok(a), Ok(b)) => a.0@ == b.0 && a.1@ == b.1,
                (Err(a), Err(b)) => a@ == b,
                _ => false,
            },
    {
        let key = match &self.api_key {
            Some(key) => key,
            None => return Err("Alpaca API key not configured".to_owned()),
        };
        let secret = match &self.api_secret {
            Some(secret) => secret,
            None => return Err("Alpaca API secret not configured".to_owned()),
        };
        match check_credentials(key.as_str(), secret.as_str()) {
            Ok(_) => Ok((key.clone(), secret.clone())),
            Err(_) => Err(
                "Failed to build Alpaca HTTP client: ".to_owned().concat(MISSING_CREDENTIALS),
            ),
        }
    }
}

/// The text of a configuration says nothing of its key and its secret.
pub proof fn secrets_stay_out_of_the_text(a: AlpacaExecClientConfig, b: AlpacaExecClientConfig)
    requires
        a.mode == b.mode,
        a.api_base_url == b.api_base_url,
    ensures
        a.shown() == b.shown(),
{
}

/// A mode's name is read as that mode.
pub proof fn mode_names_read_back(mode: AlpacaMode)
    ensures
        lowered(mode.named()) == mode.named(),
{
    reveal_strlit("paper");
    reveal_strlit("live");
    assert(lowered("paper"@) =~= "paper"@);
    assert(lowered("live"@) =~= "live"@);
}

/// An address that is given is used; else each mode has its own, paper trading that of the paper
/// interface and live trading that of the live one.
pub proof fn addresses_follow_the_mode(config: AlpacaExecClientConfig)
    ensures
        config.api_base_url matches Some(url) ==> config.rest_address() == url@,
        config.api_base_url is None && config.mode == AlpacaMode::Paper ==> config.rest_address()
            == "https://paper-api.alpaca.markets"@,
        config.api_base_url is None && config.mode == AlpacaMode::Live ==> config.rest_address()
            == "https://api.alpaca.markets"@,
        config.mode == AlpacaMode::Paper ==> config.mode.ws_url()
            == "wss://paper-api.alpaca.markets/stream"@,
        config.mode == AlpacaMode::Live ==> config.mode.ws_url()
            == "wss://api.alpaca.markets/stream"@,
{
}

/// Both credentials have to be there and not empty; then they are the key and the secret, in that
/// order.
pub proof fn credentials_are_both_needed(config: AlpacaExecClientConfig)
    ensures
        config.credentials_of() is Ok <==> {
            &&& config.api_key matches Some(key) && key@.len() > 0
            &&& config.api_secret matches Some(secret) && secret@.len() > 0
        },
        config.credentials_of() matches Ok(pair) ==> pair.0 == config.api_key->0@ && pair.1
            == config.api_secret->0@,
{
}

} // verus!

//! Errors of the broker's REST interface.

use vstd::prelude::*;

use crate::decimal::digits;
use crate::text::{lossy_text, nat_text, text_of_bytes};

verus! {

/// An error of the broker's REST interface.
#[derive(Clone, Debug)]
pub enum Error {
    /// No credentials were configured.
    MissingCredentials,
    /// The network failed.
    Transport(String),
    /// The broker answered with a status other than success.
    Api {
        /// The status.
        status: u16,
        /// The body, as text.
        body: String,
    },
    /// A body could not be read or written as JSON; holds the reason.
    Serde(String),
    /// A value could not be read.
    Parse(String),
}

/// What is said where no credentials were configured.
pub const MISSING_CREDENTIALS: &'static str =
    "Alpaca credentials not configured (set ALPACA_API_KEY_*/ALPACA_API_SECRET_*)";

impl Error {
    /// The error as text.
    pub open spec fn shown(self) -> Seq<char> {
        match self {
            Error::MissingCredentials => MISSING_CREDENTIALS@,
            Error::Transport(e) => "HTTP transport error: "@ + e@,
            Error::Api { status, body } => "Alpaca API error (status "@ + digits(status as nat)
                + "): "@ + body@,
            Error::Serde(e) => "JSON error: "@ + e@,
            Error::Parse(e) => "parse error: "@ + e@,
        }
    }

    /// The error as text.
    pub fn text(&self) -> (r: String)
        ensures
            r@ == self.shown(),
    {
        match self {
            Error::MissingCredentials => MISSING_CREDENTIALS.to_owned(),
            Error::Transport(e) => "HTTP transport error: ".to_owned().concat(e.as_str()),
            Error::Api { status, body } => "Alpaca API error (status ".to_owned().concat(
                nat_text(*status as u64).as_str(),
            ).concat("): ").concat(body.as_str()),
            Error::Serde(e) => "JSON error: ".to_owned().concat(e.as_str()),
            Error::Parse(e) => "parse error: ".to_owned().concat(e.as_str()),
        }
    }

    /// The error of an answer with this status and body.
    pub fn from_status(status: u16, body: &[u8]) -> (r: Error)
        ensures
            r matches Error::Api { status: s, body: text } && s == status && text@ == lossy_text(
                body@,
            ),
    {
        Error::Api { status, body: text_of_bytes(body) }
    }

    /// The error of a network failure.
    pub fn transport(msg: String) -> (r: Error)
        ensures
            r == Error::Transport(msg),
    {
        Error::Transport(msg)
    }

    /// Whether the error may pass: the network failed, or the broker is overloaded or failing.
    pub open spec fn may_pass(self) -> bool {
        match self {
            Error::Transport(_) => true,
            Error::Api { status, .. } => status == 429 || status >= 500,
            _ => false,
        }
    }

    /// Whether an idempotent call is worth repeating.
    pub fn is_retryable(&self) -> (r: bool)
        ensures
            r == self.may_pass(),
    {
        match self {
            Error::Transport(_) => true,
            Error::Api { status, .. } => *status == 429 || *status >= 500,
            _ => false,
        }
    }
}

/// Only what may pass is worth repeating: a network failure, too many requests, and a failure on
/// the broker's side. A refusal for any other reason, and what cannot be read, stays as it is.
pub proof fn only_passing_errors_are_retried(status: u16, body: String, text: String)
    ensures
        Error::Transport(text).may_pass(),
        (Error::Api { status, body }).may_pass() <==> status == 429 || 500 <= status,
        !Error::MissingCredentials.may_pass(),
        !Error::Serde(text).may_pass(),
        !Error::Parse(text).may_pass(),
{
}

} // verus!

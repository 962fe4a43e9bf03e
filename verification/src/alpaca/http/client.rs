//! What the client of the broker's REST interface sends, and what it makes of an answer.

use vstd::prelude::*;

use crate::alpaca::http::error::Error;

verus! {

/// How long a request may take, in seconds.
pub const DEFAULT_TIMEOUT_SECS: u64 = 30;

/// The path of the account.
pub const ACCOUNT_PATH: &'static str = "/v2/account";

/// The path of the positions.
pub const POSITIONS_PATH: &'static str = "/v2/positions";

/// The path of the open orders.
pub const OPEN_ORDERS_PATH: &'static str = "/v2/orders?status=open";

/// The path of the orders.
pub const ORDERS_PATH: &'static str = "/v2/orders";

/// Checks that both credentials are there and not empty.
pub fn check_credentials(api_key: &str, api_secret: &str) -> (r: Result<(), Error>)
    ensures
        r is Ok <==> api_key@.len() > 0 && api_secret@.len() > 0,
        r matches Err(e) ==> e is MissingCredentials,
{
    if api_key.is_empty() || api_secret.is_empty() {
        Err(Error::MissingCredentials)
    } else {
        Ok(())
    }
}

/// The address of `path`.
pub fn build_url(base_url: &str, path: &str) -> (r: String)
    ensures
        r@ == base_url@ + path@,
{
    base_url.to_owned().concat(path)
}

/// The path of one order.
pub fn order_path(venue_order_id: &str) -> (r: String)
    ensures
        r@ == "/v2/orders/"@ + venue_order_id@,
{
    "/v2/orders/".to_owned().concat(venue_order_id)
}

/// What an answer holds.
#[derive(Clone, Debug)]
pub enum Reply {
    /// Nothing.
    Empty,
    /// A body to be read as JSON.
    Body,
}

/// Sorts an answer by its status and body: a status from 200 to 299 is a success, any other an
/// error that holds the body.
pub fn read_reply(status: u16, body: &[u8]) -> (r: Result<Reply, Error>)
    ensures
        r is Ok <==> 200 <= status < 300,
        r matches Ok(reply) ==> (reply is Empty <==> body@.len() == 0),
        r matches Err(e) ==> (e matches Error::Api { status: s, body: text } && s == status
            && text@ == crate::text::lossy_text(body@)),
{
    if !(200 <= status && status < 300) {
        return Err(Error::from_status(status, body));
    }
    if body.len() == 0 {
        Ok(Reply::Empty)
    } else {
        Ok(Reply::Body)
    }
}

} // verus!

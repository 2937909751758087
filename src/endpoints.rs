//! The addresses of the request/response API that the client calls.
use vstd::prelude::*;
use crate::json::{decimal, decimal_text};
use crate::text::join3;

verus! {

/// The base of the request/response API.
pub const API_BASE: &'static str = "https://discord.com/api/v10";

/// The most messages one request may ask for.
pub const MAX_MESSAGES: u8 = 100;

/// The address that lists the latest `limit` messages of a channel, the
/// limit capped at the largest the API serves.
pub fn messages_url(channel_id: &str, limit: u8) -> (r: String)
    ensures
        r@ == API_BASE@ + "/channels/"@ + channel_id@ + "/messages?limit="@
            + decimal((if limit < MAX_MESSAGES { limit } else { MAX_MESSAGES }) as nat),
{
    let capped = if limit < MAX_MESSAGES { limit } else { MAX_MESSAGES };
    let mut r = join3(API_BASE, "/channels/", channel_id);
    r.append("/messages?limit=");
    r.append(decimal_text(capped as u64).as_str());
    r
}

/// The address that posts a message to a channel.
pub fn post_message_url(channel_id: &str) -> (r: String)
    ensures
        r@ == API_BASE@ + "/channels/"@ + channel_id@ + "/messages"@,
{
    let mut r = join3(API_BASE, "/channels/", channel_id);
    r.append("/messages");
    r
}

/// The address that names the real-time server.
pub fn gateway_endpoint() -> (r: String)
    ensures
        r@ == API_BASE@ + "/gateway"@,
{
    let mut r = String::from_str(API_BASE);
    r.append("/gateway");
    r
}

/// The address that describes the account a credential belongs to.
pub fn current_user_url() -> (r: String)
    ensures
        r@ == API_BASE@ + "/users/@me"@,
{
    let mut r = String::from_str(API_BASE);
    r.append("/users/@me");
    r
}

} // verus!

//! The Doubao speech service (volcengine openspeech): recognition over a
//! WebSocket with binary frames, synthesis over HTTP with a JSON line
//! stream. Two ways to authenticate coexist: a single `X-Api-Key` from the
//! new console, or App ID + Access Token from the old one.
pub mod asr;
pub mod protocol;
pub mod tts;

use vstd::prelude::*;

use crate::config::store::{DoubaoConfig, DoubaoView};
use crate::text::{has_infix, str_contains, trim, trim_str};

verus! {

/// Authentication headers for the settings: the API key alone when it is
/// set, else App ID (under both names the two services use) and token.
pub open spec fn auth_header_spec(d: DoubaoView) -> Seq<(Seq<char>, Seq<char>)> {
    if trim(d.api_key).len() > 0 {
        seq![("X-Api-Key"@, trim(d.api_key))]
    } else {
        seq![
            ("X-Api-App-Key"@, d.app_id),
            ("X-Api-App-Id"@, d.app_id),
            ("X-Api-Access-Key"@, d.access_token),
        ]
    }
}

/// Header names and values as character sequences.
pub open spec fn headers_view(h: Seq<(&'static str, String)>) -> Seq<(Seq<char>, Seq<char>)> {
    h.map_values(|p: (&'static str, String)| (p.0@, p.1@))
}

/// The authentication headers. Recognition calls the App ID header
/// `X-Api-App-Key`, synthesis `X-Api-App-Id`; both are sent.
pub fn auth_headers(cfg: &DoubaoConfig) -> (r: Vec<(&'static str, String)>)
    ensures
        headers_view(r@) == auth_header_spec(cfg@),
{
    let key = trim_str(cfg.api_key.as_str());
    let mut r: Vec<(&'static str, String)> = Vec::new();
    if !key.as_str().is_empty() {
        r.push(("X-Api-Key", key));
    } else {
        r.push(("X-Api-App-Key", cfg.app_id.clone()));
        r.push(("X-Api-App-Id", cfg.app_id.clone()));
        r.push(("X-Api-Access-Key", cfg.access_token.clone()));
    }
    assert(headers_view(r@) =~= auth_header_spec(cfg@));
    r
}

/// Whether an error (its message with the whole cause chain) is worth one
/// retry: server errors, network trouble, timeouts. Rejected credentials
/// never are.
pub open spec fn transient(msg: Seq<char>) -> bool {
    !(has_infix(msg, "HTTP 401"@) || has_infix(msg, "HTTP 403"@) || has_infix(msg, "凭证"@)) && (
    has_infix(msg, "HTTP 5"@) || has_infix(msg, "connection"@) || has_infix(msg, "Connection"@)
        || has_infix(msg, "timed out"@) || has_infix(msg, "reset"@) || has_infix(msg, "dns"@)
        || has_infix(msg, "Io"@))
}

/// Whether the error with message `msg` (cause chain included) is
/// transient: 5xx, connection trouble, timeouts. 401/403 never are.
pub fn is_transient_error(msg: &str) -> (r: bool)
    ensures
        r == transient(msg@),
{
    if str_contains(msg, "HTTP 401") || str_contains(msg, "HTTP 403") || str_contains(msg, "凭证") {
        return false;
    }
    str_contains(msg, "HTTP 5") || str_contains(msg, "connection") || str_contains(msg, "Connection")
        || str_contains(msg, "timed out") || str_contains(msg, "reset") || str_contains(msg, "dns")
        || str_contains(msg, "Io")
}

/// What to check when the service rejects the credentials.
pub open spec fn hint_text() -> Seq<char> {
    "请检查 speech.doubao.api_key（或 app_id + access_token）以及 2.0 服务是否已在控制台开通"@
}

/// What to check when the service rejects the credentials.
pub fn credentials_hint() -> (r: &'static str)
    ensures
        r@ == hint_text(),
{
    "请检查 speech.doubao.api_key（或 app_id + access_token）以及 2.0 服务是否已在控制台开通"
}

/// Retries after the first failed attempt.
pub const MAX_RETRIES: u32 = 1;

/// After attempt number `attempt` failed: the next attempt's number and the
/// pause before it in milliseconds, when a retry is due.
pub fn next_retry(attempt: u32, transient: bool) -> (r: Option<(u32, u64)>)
    ensures
        r == if attempt < MAX_RETRIES && transient {
            Some(((attempt + 1) as u32, (500 * (attempt + 1)) as u64))
        } else {
            None::<(u32, u64)>
        },
{
    if attempt < MAX_RETRIES && transient {
        let next = attempt + 1;
        Some((next, 500 * (next as u64)))
    } else {
        None
    }
}

} // verus!

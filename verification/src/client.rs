//! The three mailbox operations: where each request goes and how its response
//! is read.

use crate::mailbox::{Mailbox, MailboxError};
use vstd::prelude::*;
use vstd::string::StringExecFns;

verus! {

/// The value of the string member `field` of the JSON object written in
/// `document`; `None` if `document` is not JSON or has no such string member.
pub uninterp spec fn json_string_member(document: Seq<char>, field: Seq<char>) -> Option<Seq<char>>;

/// The view of an optional text.
pub open spec fn text_of(value: Option<String>) -> Option<Seq<char>> {
    match value {
        Some(s) => Some(s@),
        None => None,
    }
}

/// What a health check returns: the service's own word on its state.
#[derive(Debug, PartialEq, Eq)]
pub struct StatusPayload {
    pub status: String,
}

/// How the transport is to be set up. The library sends nothing itself; the
/// caller who does reads this.
#[derive(Clone, Copy, Debug, PartialEq, Eq)]
pub struct TransportConfig {
    /// Accept a server certificate that cannot be validated.
    pub insecure_skip_verify: bool,
    /// Give up on a request after this many seconds.
    pub timeout_seconds: u64,
}

impl TransportConfig {
    /// Certificates are validated and a request may take 30 seconds.
    pub fn new() -> (config: Self)
        ensures
            !config.insecure_skip_verify,
            config.timeout_seconds == 30,
    {
        TransportConfig { insecure_skip_verify: false, timeout_seconds: 30 }
    }
}

/// Whether `status` is an HTTP status of success.
pub open spec fn is_success(status: u16) -> bool {
    200 <= status && status <= 299
}

/// The address of the health check.
pub open spec fn health_address(url: Seq<char>) -> Seq<char> {
    url + "/health"@
}

/// The address of the handshake.
pub open spec fn handshake_address(url: Seq<char>, id: Seq<char>) -> Seq<char> {
    url + "/messageexchange/"@ + id
}

/// The address of the inbox.
pub open spec fn inbox_address(url: Seq<char>, id: Seq<char>) -> Seq<char> {
    url + "/messageexchange/"@ + id + "/inbox"@
}

/// Calls `serde_json::from_str` for a `Value` and `Value::get` on it, and
/// keeps a member that is a string. Trusted: the result is the one function of document and
/// field that the contracts call `json_string_member`.
#[verifier::external_body]
fn json_string_field(document: &str, field: &str) -> (value: Option<String>)
    ensures
        text_of(value) == json_string_member(document@, field@),
{
    match serde_json::from_str::<serde_json::Value>(document) {
        Ok(json) => match json.get(field) {
            Some(serde_json::Value::String(text)) => Some(text.clone()),
            _ => None,
        },
        Err(_) => None,
    }
}

/// Whether `status` is an HTTP status of success.
pub fn status_is_success(status: u16) -> (r: bool)
    ensures
        r == is_success(status),
{
    200 <= status && status <= 299
}

/// Where the health check of `mailbox` is asked.
pub fn health_url(mailbox: &Mailbox) -> (address: String)
    ensures
        address@ == health_address(mailbox.url_text()),
{
    String::from_str(mailbox.url()).concat("/health")
}

/// Where the handshake of `mailbox` is asked.
pub fn handshake_url(mailbox: &Mailbox) -> (address: String)
    ensures
        address@ == handshake_address(mailbox.url_text(), mailbox.id_text()),
{
    String::from_str(mailbox.url()).concat("/messageexchange/").concat(mailbox.id())
}

/// Where the number of waiting messages of `mailbox` is asked.
pub fn inbox_url(mailbox: &Mailbox) -> (address: String)
    ensures
        address@ == inbox_address(mailbox.url_text(), mailbox.id_text()),
{
    String::from_str(mailbox.url()).concat("/messageexchange/").concat(mailbox.id()).concat(
        "/inbox",
    )
}

/// Reads the response to a handshake or an inbox request: the body as it came
/// on success, the status and the body as a `RemoteError` otherwise.
pub fn read_response(status: u16, body: String) -> (r: Result<String, MailboxError>)
    ensures
        match r {
            Ok(text) => is_success(status) && text == body,
            Err(e) => !is_success(status) && e == (MailboxError::RemoteError { status, body }),
        },
{
    if status_is_success(status) {
        Ok(body)
    } else {
        Err(MailboxError::RemoteError { status, body })
    }
}

/// Reads the response to a health check, given the `status` member that was
/// found in its body.
///
/// A status outside 200..=299 is a `RemoteError` with the status and the body.
/// On success the payload holds the member; a body without one is a
/// `TransportError` that carries the body.
pub fn health_payload(status: u16, body: String, member: Option<String>) -> (r: Result<
    StatusPayload,
    MailboxError,
>)
    ensures
        match r {
            Ok(payload) => is_success(status) && member == Some(payload.status),
            Err(e) => if is_success(status) {
                member is None && e == (MailboxError::TransportError { detail: body })
            } else {
                e == (MailboxError::RemoteError { status, body })
            },
        },
{
    if !status_is_success(status) {
        return Err(MailboxError::RemoteError { status, body });
    }
    match member {
        Some(text) => Ok(StatusPayload { status: text }),
        None => Err(MailboxError::TransportError { detail: body }),
    }
}

/// Reads the response to a health check.
///
/// A status outside 200..=299 is a `RemoteError` with the status and the body.
/// On success the payload holds the string member `status` of the JSON body; a
/// body without one is a `TransportError` that carries the body.
pub fn read_health(status: u16, body: String) -> (r: Result<StatusPayload, MailboxError>)
    ensures
        match r {
            Ok(payload) => is_success(status) && json_string_member(body@, "status"@) == Some(
                payload.status@,
            ),
            Err(e) => if is_success(status) {
                json_string_member(body@, "status"@) is None && e == (
                MailboxError::TransportError { detail: body })
            } else {
                e == (MailboxError::RemoteError { status, body })
            },
        },
{
    let member = json_string_field(body.as_str(), "status");
    health_payload(status, body, member)
}

} // verus!
